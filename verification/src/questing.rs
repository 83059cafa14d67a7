use std::collections::HashMap;
use vstd::prelude::*;
use vstd::std_specs::iter::IteratorSpec;

use crate::draws::{draw_coin, draw_in_range, draw_weighted_index, weight_sum};
use crate::text::{decimal_string, decimal_text, is_random_uuid, random_uuid, uuid_string, uuid_text};

verus! {

broadcast use vstd::std_specs::hash::group_hash_axioms;

/// Identifier of a quest: the 128-bit value of a UUID.
#[derive(Clone, Copy, PartialEq, Eq, Structural, Debug, Hash)]
pub struct QuestId(pub u128);

impl QuestId {
    /// A fresh identifier drawn from a random (version 4) UUID.
    #[allow(clippy::new_without_default)]
    pub fn new() -> (id: QuestId)
        ensures
            is_random_uuid(id.0),
    {
        QuestId(random_uuid())
    }

    /// The identifier with the given UUID value.
    pub fn from_u128(value: u128) -> (id: QuestId)
        ensures
            id.0 == value,
    {
        QuestId(value)
    }

    /// The UUID value of this identifier.
    pub fn as_u128(&self) -> (value: u128)
        ensures
            value == self.0,
    {
        self.0
    }

    /// The identifier as text: the hyphenated lowercase UUID form.
    pub fn to_string(&self) -> (text: String)
        ensures
            text@ == uuid_text(self.0),
    {
        uuid_string(self.0)
    }
}

/// What a quest asks for, with its progress so far.
#[allow(inconsistent_fields)]
#[derive(Clone, Copy, PartialEq, Eq, Structural, Debug)]
pub enum QuestType {
    Fetch { done: bool },
    Kill { amount: u32, done: u32 },
    FindMyPages,
}

impl QuestType {
    pub open spec fn completed(self) -> bool {
        match self {
            QuestType::Fetch { done } => done,
            QuestType::Kill { amount, done } => done >= amount,
            QuestType::FindMyPages => false,
        }
    }

    pub open spec fn spec_min_progress(self) -> u32 {
        0
    }

    pub open spec fn spec_max_progress(self) -> u32 {
        match self {
            QuestType::Fetch { .. } => 1,
            QuestType::Kill { amount, .. } => amount,
            QuestType::FindMyPages => 8,
        }
    }

    pub open spec fn spec_progress(self) -> u32 {
        match self {
            QuestType::Fetch { done } => if done { 1 } else { 0 },
            QuestType::Kill { amount, done } => if done <= amount { done } else { amount },
            QuestType::FindMyPages => 0,
        }
    }

    /// The quest type after one more imp was killed: a kill quest counts it.
    pub open spec fn after_imp_kill(self) -> QuestType {
        match self {
            QuestType::Kill { amount, done } => QuestType::Kill { amount, done: (done + 1) as u32 },
            _ => self,
        }
    }

    /// The quest type once the player holds `has_items` or not: a fetch quest
    /// is done exactly while some item is held.
    pub open spec fn after_inventory_change(self, has_items: bool) -> QuestType {
        match self {
            QuestType::Fetch { .. } => QuestType::Fetch { done: has_items },
            _ => self,
        }
    }

    pub fn is_completed(&self) -> (completed: bool)
        ensures
            completed == self.completed(),
    {
        match self {
            QuestType::Fetch { done } => *done,
            QuestType::Kill { amount, done } => *done >= *amount,
            QuestType::FindMyPages => false,
        }
    }

    pub fn min_progress(&self) -> (progress: u32)
        ensures
            progress == self.spec_min_progress(),
    {
        match self {
            QuestType::Fetch { .. } => 0,
            QuestType::Kill { .. } => 0,
            QuestType::FindMyPages => 0,
        }
    }

    pub fn max_progress(&self) -> (progress: u32)
        ensures
            progress == self.spec_max_progress(),
    {
        match self {
            QuestType::Fetch { .. } => 1,
            QuestType::Kill { amount, .. } => *amount,
            QuestType::FindMyPages => 8,
        }
    }

    pub fn progress(&self) -> (progress: u32)
        ensures
            progress == self.spec_progress(),
    {
        match self {
            QuestType::Fetch { done } => if *done { 1 } else { 0 },
            QuestType::Kill { done, amount } => if *done <= *amount { *done } else { *amount },
            QuestType::FindMyPages => 0,
        }
    }
}

/// Progress always lies between the minimum and the maximum progress.
pub proof fn lemma_progress_within_bounds(quest_type: QuestType)
    ensures
        quest_type.spec_min_progress() <= quest_type.spec_progress() <= quest_type.spec_max_progress(),
{
}

/// A quest is completed exactly when its progress has reached the maximum.
pub proof fn lemma_completed_iff_full_progress(quest_type: QuestType)
    ensures
        quest_type.completed() <==> quest_type.spec_progress() == quest_type.spec_max_progress(),
{
}

/// Killing an imp never undoes a completed quest and never lowers progress.
pub proof fn lemma_imp_kill_keeps_completion(quest_type: QuestType)
    requires
        quest_type matches QuestType::Kill { done, .. } ==> done < u32::MAX,
    ensures
        quest_type.completed() ==> quest_type.after_imp_kill().completed(),
        quest_type.spec_progress() <= quest_type.after_imp_kill().spec_progress(),
        quest_type.after_imp_kill().spec_max_progress() == quest_type.spec_max_progress(),
{
}

/// Completion and progress of each kind of quest, by its fields: a fetch quest
/// is completed exactly once its item is held, with progress 1 of 1 then and 0
/// of 1 before; a kill quest is completed exactly once it has counted as many
/// kills as it asks for, its maximum is the number asked for, and its progress
/// is the kills counted, up to that number; the pages quest is never
/// completed, with progress 0 of 8.
pub proof fn lemma_progress_by_kind(quest_type: QuestType)
    ensures
        quest_type matches QuestType::Fetch { done } ==> {
            &&& quest_type.completed() == done
            &&& quest_type.spec_max_progress() == 1
            &&& quest_type.spec_progress() == (if done { 1u32 } else { 0u32 })
        },
        quest_type matches QuestType::Kill { amount, done } ==> {
            &&& quest_type.completed() == (done >= amount)
            &&& quest_type.spec_max_progress() == amount
            &&& (done <= amount ==> quest_type.spec_progress() == done)
            &&& (done >= amount ==> quest_type.spec_progress() == amount)
        },
        quest_type is FindMyPages ==> {
            &&& !quest_type.completed()
            &&& quest_type.spec_max_progress() == 8
            &&& quest_type.spec_progress() == 0
        },
{
}

/// A quest type after `n` imp kills, one at a time.
pub open spec fn after_imp_kills(quest_type: QuestType, n: nat) -> QuestType
    decreases n,
{
    if n == 0 {
        quest_type
    } else {
        after_imp_kills(quest_type, (n - 1) as nat).after_imp_kill()
    }
}

/// Each imp kill counts exactly once: a kill quest that asked for `amount`
/// kills and had counted `done` has counted `done + n` after `n` more, still
/// asks for `amount`, and is completed exactly when `done + n` reaches
/// `amount`. Other quests do not change.
pub proof fn lemma_imp_kills_count_one_each(quest_type: QuestType, n: nat)
    requires
        quest_type matches QuestType::Kill { done, .. } ==> done + n <= u32::MAX,
    ensures
        quest_type matches QuestType::Kill { amount, done } ==> {
            &&& after_imp_kills(quest_type, n) == QuestType::Kill { amount, done: (done + n) as u32 }
            &&& after_imp_kills(quest_type, n).completed() == (done + n >= amount)
        },
        !(quest_type is Kill) ==> after_imp_kills(quest_type, n) == quest_type,
    decreases n,
{
    if n > 0 {
        lemma_imp_kills_count_one_each(quest_type, (n - 1) as nat);
    }
}

/// The quest type a draw of `kind` (below 3) and `amount` stands for.
pub open spec fn quest_type_from_draw(kind: usize, amount: u32) -> QuestType {
    if kind == 0 {
        QuestType::Fetch { done: false }
    } else if kind == 1 {
        QuestType::Kill { amount, done: 0 }
    } else {
        QuestType::FindMyPages
    }
}

/// The name of a quest of the drawn kind.
pub open spec fn quest_name_text(kind: usize) -> Seq<char> {
    if kind == 0 {
        "Awesome Fetch Quest"@
    } else if kind == 1 {
        "Awesome Kill Quest"@
    } else {
        "Find my pages."@
    }
}

/// The description of a quest of the drawn kind and amount.
pub open spec fn quest_description_text(kind: usize, amount: u32) -> Seq<char> {
    if kind == 0 {
        "imps stole my orange cube... pwease go get it back!!"@
    } else if kind == 1 {
        "imps killed my grandma... pwease go take revenge on those darn imps for me... kill "@
            + decimal_text(amount as nat) + "!!"@
    } else {
        "Find my pages."@
    }
}

/// A quest handed out by a quest giver.
#[derive(Debug)]
pub struct Quest {
    pub id: QuestId,
    pub quest_type: QuestType,
    pub name: String,
    pub description: String,
}

impl Quest {
    /// Whether this quest is the one a draw of `kind` and `amount` produces.
    pub open spec fn matches_draw(&self, kind: usize, amount: u32) -> bool {
        &&& self.quest_type == quest_type_from_draw(kind, amount)
        &&& self.name@ == quest_name_text(kind)
        &&& self.description@ == quest_description_text(kind, amount)
    }

    /// Whether this quest is one that random generation can produce: of one of
    /// the three kinds, a kill quest asking for one to five kills.
    pub open spec fn is_generated(&self) -> bool {
        &&& is_random_uuid(self.id.0)
        &&& exists|kind: usize, amount: u32| 
            #![trigger self.matches_draw(kind, amount)]
            kind < 3 && 1 <= amount <= 5 && self.matches_draw(kind, amount)
    }

    /// Builds the quest with identifier `id` that a draw of `kind` (0 for fetch,
    /// 1 for kill, 2 for the pages) and `amount` (kills asked for) stands for.
    pub fn from_draw(id: QuestId, kind: usize, amount: u32) -> (quest: Quest)
        requires
            kind < 3,
        ensures
            quest.id == id,
            quest.matches_draw(kind, amount),
    {
        if kind == 0 {
            Quest {
                id,
                quest_type: QuestType::Fetch { done: false },
                name: "Awesome Fetch Quest".to_owned(),
                description: "imps stole my orange cube... pwease go get it back!!".to_owned(),
            }
        } else if kind == 1 {
            let mut description = "imps killed my grandma... pwease go take revenge on those darn imps for me... kill ".to_owned();
            let count = decimal_string(amount);
            description.append(count.as_str());
            description.append("!!");
            Quest {
                id,
                quest_type: QuestType::Kill { amount, done: 0 },
                name: "Awesome Kill Quest".to_owned(),
                description,
            }
        } else {
            Quest {
                id,
                quest_type: QuestType::FindMyPages,
                name: "Find my pages.".to_owned(),
                description: "Find my pages.".to_owned(),
            }
        }
    }

    /// The text of the dialogue proposing this quest: its name, a blank line,
    /// then its description.
    pub fn dialogue_text(&self) -> (text: String)
        ensures
            text@ == self.name@ + "\n\n"@ + self.description@,
    {
        let mut text = self.name.clone();
        text.append("\n\n");
        text.append(self.description.as_str());
        text
    }

    /// Draws a random quest: fetch, kill and pages weighted 10, 10 and 1; a
    /// kill quest asks for one to five kills; the identifier is a fresh UUID.
    pub fn random() -> (quest: Quest)
        ensures
            quest.is_generated(),
    {
        let weights: Vec<u32> = vec![10, 10, 1];
        assert(weight_sum(weights@) == 21) by {
            reveal_with_fuel(weight_sum, 4);
        }
        let kind = match draw_weighted_index(&weights) {
            Some(kind) => kind,
            None => 0,
        };
        let amount = if kind == 1 {
            draw_in_range(1, 5)
        } else {
            1
        };
        let id = QuestId::new();
        let quest = Quest::from_draw(id, kind, amount);
        assert(quest.matches_draw(kind, amount));
        quest
    }
}

/// Why a quest operation could not be carried out.
#[derive(Clone, Copy, PartialEq, Eq, Structural, Debug)]
pub enum QuestError {
    /// The quest is not on the board.
    UnknownQuest,
    /// The quest a giver holds is not on the board when its marker is updated.
    QuestNotFound,
    /// No quest giver holds the quest.
    QuestGiverMissing,
    /// The inventory holds no item to hand over.
    NoItemToConsume,
}

impl QuestError {
    /// The message the game reports for this error.
    pub fn message(&self) -> (text: &'static str)
        ensures
            text@ == match self {
                QuestError::UnknownQuest => "Unknown quest"@,
                QuestError::QuestNotFound => "Quest not found"@,
                QuestError::QuestGiverMissing => "Quest giver missing"@,
                QuestError::NoItemToConsume => "No item to consume"@,
            },
    {
        match self {
            QuestError::UnknownQuest => "Unknown quest",
            QuestError::QuestNotFound => "Quest not found",
            QuestError::QuestGiverMissing => "Quest giver missing",
            QuestError::NoItemToConsume => "No item to consume",
        }
    }
}

/// A character that hands out quests, one at a time.
#[derive(Clone, Copy, PartialEq, Eq, Structural, Debug)]
pub struct QuestGiver {
    /// The quest this giver has handed out, if any.
    pub given_quest: Option<QuestId>,
    /// The entity of the marker floating over this giver, once spawned.
    pub quest_marker: Option<u64>,
}

impl QuestGiver {
    /// A giver that has handed out no quest and carries no marker.
    pub fn new() -> (giver: QuestGiver)
        ensures
            giver.given_quest is None,
            giver.quest_marker is None,
    {
        QuestGiver { given_quest: None, quest_marker: None }
    }

    /// Whether this giver holds quest `id`.
    pub open spec fn holds(&self, id: QuestId) -> bool {
        self.given_quest == Some(id)
    }
}

/// The player accepted the quest proposed in a dialogue.
#[derive(Clone, Copy, PartialEq, Eq, Structural, Debug)]
pub struct AcceptQuest {
    pub quest_proposal: u64,
    pub quest_id: QuestId,
}

/// Quest has been declined, and will end.
#[derive(Clone, Copy, PartialEq, Eq, Structural, Debug)]
pub struct DeclineQuest {
    pub quest_proposal: u64,
    pub quest_id: QuestId,
}

/// Quest has ended, either by being completed, declined, or something else.
#[derive(Clone, Copy, PartialEq, Eq, Structural, Debug)]
pub struct EndQuest {
    pub quest_id: QuestId,
}

/// Quest has been completed successfully, and will end.
#[derive(Clone, Copy, PartialEq, Eq, Structural, Debug)]
pub struct CompleteQuest {
    pub quest_id: QuestId,
}

/// A completed quest ends.
pub fn complete_to_end(complete: CompleteQuest) -> (end: EndQuest)
    ensures
        end.quest_id == complete.quest_id,
{
    EndQuest { quest_id: complete.quest_id }
}

/// A declined quest ends.
pub fn decline_to_end(decline: DeclineQuest) -> (end: EndQuest)
    ensures
        end.quest_id == decline.quest_id,
{
    EndQuest { quest_id: decline.quest_id }
}

/// When a killed entity was a quest giver holding a quest, that quest ends.
pub fn end_quest_if_giver_killed(victim: Option<QuestGiver>) -> (end: Option<EndQuest>)
    ensures
        end == match victim {
            Some(giver) => match giver.given_quest {
                Some(id) => Some(EndQuest { quest_id: id }),
                None => None,
            },
            None => None,
        },
{
    match victim {
        Some(giver) => match giver.given_quest {
            Some(quest_id) => Some(EndQuest { quest_id }),
            None => None,
        },
        None => None,
    }
}

impl Quest {
    /// This quest after one more imp was killed.
    pub open spec fn after_imp_kill(self) -> Quest {
        Quest {
            id: self.id,
            quest_type: self.quest_type.after_imp_kill(),
            name: self.name,
            description: self.description,
        }
    }

    /// This quest once the player holds some item (`has_items`) or none.
    pub open spec fn after_inventory_change(self, has_items: bool) -> Quest {
        Quest {
            id: self.id,
            quest_type: self.quest_type.after_inventory_change(has_items),
            name: self.name,
            description: self.description,
        }
    }
}

/// The quests currently handed out, by the value of their identifier.
pub struct Quests(pub HashMap<u128, Quest>);

impl View for Quests {
    type V = Map<u128, Quest>;

    open spec fn view(&self) -> Map<u128, Quest> {
        self.0@
    }
}

/// Whether every quest on a board is filed under its own identifier.
pub open spec fn board_filed_by_id(board: Map<u128, Quest>) -> bool {
    forall|k: u128| #[trigger] board.contains_key(k) ==> board[k].id.0 == k
}

/// Whether the quest filed under `k` is a fetch quest.
pub open spec fn is_fetch_quest(board: Map<u128, Quest>, k: u128) -> bool {
    board[k].quest_type is Fetch
}

/// The number of fetch quests on a board.
pub open spec fn fetch_quest_count(board: Map<u128, Quest>) -> nat {
    board.dom().filter(|k: u128| is_fetch_quest(board, k)).len()
}

/// Total of a sequence of sizes.
pub open spec fn size_total(sizes: Seq<usize>) -> int
    decreases sizes.len(),
{
    if sizes.len() == 0 {
        0
    } else {
        size_total(sizes.drop_last()) + sizes.last()
    }
}

/// Whether a quest drop spawns: only while fewer items exist than there are
/// fetch quests, only from a killed imp, and only when the coin comes up tails.
pub open spec fn spec_quest_drop_spawns(num_items: nat, num_fetch_quests: nat, victim_is_imp: bool, heads: bool) -> bool {
    num_items < num_fetch_quests && victim_is_imp && !heads
}

/// Proposing quest `id` took the giver from `giver` to `giver_after` and the
/// board from `board` to `board_after`: the giver now holds the quest, its
/// marker unchanged, and the quest is filed on the board under its identifier,
/// with nothing else on the board changed.
pub open spec fn proposal_made(
    board: Map<u128, Quest>,
    giver: QuestGiver,
    id: QuestId,
    board_after: Map<u128, Quest>,
    giver_after: QuestGiver,
) -> bool {
    &&& giver_after == QuestGiver { given_quest: Some(id), quest_marker: giver.quest_marker }
    &&& board_after.contains_key(id.0)
    &&& board_after == board.insert(id.0, board_after[id.0])
    &&& board_after[id.0].id == id
}

/// Ending quest `id` succeeded, taking the board from `board` to `board_after`
/// and the givers from `givers` to `givers_after`: the quest left the board,
/// and the first giver holding it holds nothing any more, its marker unchanged.
pub open spec fn quest_removed(
    board: Map<u128, Quest>,
    givers: Seq<QuestGiver>,
    id: QuestId,
    board_after: Map<u128, Quest>,
    givers_after: Seq<QuestGiver>,
) -> bool {
    &&& board_after == board.remove(id.0)
    &&& exists|i: int| {
        &&& 0 <= i < givers.len()
        &&& givers[i].holds(id)
        &&& forall|j: int| 0 <= j < i ==> !(#[trigger] givers[j]).holds(id)
        &&& givers_after == givers.update(i, QuestGiver { given_quest: None, quest_marker: givers[i].quest_marker })
    }
}

/// Which of the two quest markers over a giver shows.
#[derive(Clone, Copy, PartialEq, Eq, Structural, Debug)]
pub struct MarkerVisibility {
    /// The marker announcing a quest to hand out.
    pub new_visible: bool,
    /// The marker announcing a quest ready to turn in.
    pub updated_visible: bool,
}

impl Quests {
    /// An empty quest board.
    pub fn new() -> (quests: Quests)
        ensures
            quests@ == Map::<u128, Quest>::empty(),
    {
        Quests(HashMap::new())
    }

    /// The quest with identifier `id`, if it is on the board.
    pub fn get(&self, id: QuestId) -> (quest: Option<&Quest>)
        ensures
            match quest {
                Some(q) => self@.contains_key(id.0) && *q == self@[id.0],
                None => !self@.contains_key(id.0),
            },
    {
        self.0.get(&id.0)
    }

    /// The number of quests on the board.
    pub fn len(&self) -> (n: usize)
        ensures
            n == self@.len(),
    {
        self.0.len()
    }

    /// The identifiers on the board, each once.
    fn keys(&self) -> (keys: Vec<u128>)
        ensures
            keys@.no_duplicates(),
            keys@.to_set() == self@.dom(),
            keys@.len() == self@.dom().len(),
    {
        let mut keys: Vec<u128> = Vec::new();
        for k in it: self.0.keys()
            invariant
                keys@.len() == it.index(),
                forall|j: int| 0 <= j < it.index() ==> keys@[j] == *it.seq()[j],
                it.seq() == vstd::std_specs::hash::spec_keys_iter(&self.0).remaining(),
        {
            keys.push(*k);
        }
        proof {
            let r = vstd::std_specs::hash::spec_keys_iter(&self.0).remaining();
            assert(keys@ =~= r.unref());
        }
        keys
    }

    /// A killed entity that is an imp counts towards every kill quest.
    /// (The count of a kill quest must have room for one more.)
    pub fn update_killed_imps(&mut self, victim_is_imp: bool)
        requires
            victim_is_imp ==> forall|k: u128| #[trigger] old(self)@.contains_key(k) ==>
                (old(self)@[k].quest_type matches QuestType::Kill { done, .. } ==> done < u32::MAX),
        ensures
            victim_is_imp ==> final(self)@ == old(self)@.map_values(|q: Quest| q.after_imp_kill()),
            !victim_is_imp ==> final(self)@ == old(self)@,
            final(self)@.dom() == old(self)@.dom(),
            victim_is_imp ==> forall|k: u128| #[trigger] old(self)@.contains_key(k) ==> {
                &&& final(self)@[k].id == old(self)@[k].id
                &&& match old(self)@[k].quest_type {
                    QuestType::Kill { amount, done } => final(self)@[k].quest_type == QuestType::Kill { amount, done: (done + 1) as u32 },
                    other => final(self)@[k].quest_type == other,
                }
            },
    {
        if !victim_is_imp {
            return;
        }
        let keys = self.keys();
        let ghost before = self@;
        for i in 0..keys.len()
            invariant
                keys@.no_duplicates(),
                keys@.to_set() == before.dom(),
                self@.dom() == before.dom(),
                forall|k: u128| #[trigger] before.contains_key(k) ==>
                    (before[k].quest_type matches QuestType::Kill { done, .. } ==> done < u32::MAX),
                forall|j: int| 0 <= j < i ==> self@[#[trigger] keys@[j]] == before[keys@[j]].after_imp_kill(),
                forall|k: u128| #[trigger] self@.contains_key(k) && !keys@.take(i as int).contains(k) ==> self@[k] == before[k],
        {
            let k = keys[i];
            assert(keys@.contains(k));
            assert(!keys@.take(i as int).contains(k)) by {
                if keys@.take(i as int).contains(k) {
                    let j = choose|j: int| 0 <= j < i && keys@.take(i as int)[j] == k;
                    assert(keys@[j] == keys@[i as int]);
                }
            }
            match self.0.remove(&k) {
                Some(mut quest) => {
                    quest.quest_type = match quest.quest_type {
                        QuestType::Kill { amount, done } => QuestType::Kill { amount, done: done + 1 },
                        other => other,
                    };
                    self.0.insert(k, quest);
                },
                None => {},
            }
            assert forall|k2: u128| #[trigger] self@.contains_key(k2) && !keys@.take(i + 1).contains(k2) implies self@[k2] == before[k2] by {
                assert(keys@.take(i + 1)[i as int] == k);
                assert(k2 != k);
                if keys@.take(i as int).contains(k2) {
                    let j = choose|j: int| 0 <= j < i && keys@.take(i as int)[j] == k2;
                    assert(keys@.take(i + 1)[j] == k2);
                }
            }
            assert forall|j: int| 0 <= j < i + 1 implies self@[#[trigger] keys@[j]] == before[keys@[j]].after_imp_kill() by {
                if j < i {
                    assert(keys@[j] != k);
                }
            }
        }
        assert(self@ =~= before.map_values(|q: Quest| q.after_imp_kill())) by {
            assert forall|k: u128| #[trigger] before.contains_key(k) implies self@[k] == before[k].after_imp_kill() by {
                assert(keys@.to_set().contains(k));
                let j = choose|j: int| 0 <= j < keys@.len() && keys@[j] == k;
            }
        }
    }

    /// After any inventory changed, every fetch quest is done exactly while the
    /// inventories (given by their sizes) hold some item in total.
    pub fn update_picked_up_items(&mut self, inventory_sizes: &Vec<usize>)
        ensures
            final(self)@ == old(self)@.map_values(|q: Quest| q.after_inventory_change(size_total(inventory_sizes@) > 0)),
    {
        let has_items = holds_any_item(inventory_sizes);
        let keys = self.keys();
        let ghost before = self@;
        for i in 0..keys.len()
            invariant
                keys@.no_duplicates(),
                keys@.to_set() == before.dom(),
                self@.dom() == before.dom(),
                forall|j: int| 0 <= j < i ==> self@[#[trigger] keys@[j]] == before[keys@[j]].after_inventory_change(has_items),
                forall|k: u128| #[trigger] self@.contains_key(k) && !keys@.take(i as int).contains(k) ==> self@[k] == before[k],
        {
            let k = keys[i];
            assert(keys@.contains(k));
            assert(!keys@.take(i as int).contains(k)) by {
                if keys@.take(i as int).contains(k) {
                    let j = choose|j: int| 0 <= j < i && keys@.take(i as int)[j] == k;
                    assert(keys@[j] == keys@[i as int]);
                }
            }
            match self.0.remove(&k) {
                Some(mut quest) => {
                    quest.quest_type = match quest.quest_type {
                        QuestType::Fetch { .. } => QuestType::Fetch { done: has_items },
                        other => other,
                    };
                    self.0.insert(k, quest);
                },
                None => {},
            }
            assert forall|k2: u128| #[trigger] self@.contains_key(k2) && !keys@.take(i + 1).contains(k2) implies self@[k2] == before[k2] by {
                assert(keys@.take(i + 1)[i as int] == k);
                assert(k2 != k);
                if keys@.take(i as int).contains(k2) {
                    let j = choose|j: int| 0 <= j < i && keys@.take(i as int)[j] == k2;
                    assert(keys@.take(i + 1)[j] == k2);
                }
            }
            assert forall|j: int| 0 <= j < i + 1 implies self@[#[trigger] keys@[j]] == before[keys@[j]].after_inventory_change(has_items) by {
                if j < i {
                    assert(keys@[j] != k);
                }
            }
        }
        assert(self@ =~= before.map_values(|q: Quest| q.after_inventory_change(has_items))) by {
            assert forall|k: u128| #[trigger] before.contains_key(k) implies self@[k] == before[k].after_inventory_change(has_items) by {
                assert(keys@.to_set().contains(k));
                let j = choose|j: int| 0 <= j < keys@.len() && keys@[j] == k;
            }
        }
    }

    /// The number of fetch quests on the board.
    pub fn count_fetch_quests(&self) -> (count: usize)
        ensures
            count == fetch_quest_count(self@),
    {
        let keys = self.keys();
        let mut count: usize = 0;
        let ghost board = self@;
        let ghost mut seen: Set<u128> = Set::empty();
        let ghost mut fetch_seen: Set<u128> = Set::empty();
        assert(seen.filter(|k: u128| is_fetch_quest(board, k)) =~= fetch_seen);
        assert(keys@.take(0).to_set() =~= seen);
        for i in 0..keys.len()
            invariant
                board == self@,
                keys@.no_duplicates(),
                keys@.to_set() == board.dom(),
                seen == keys@.take(i as int).to_set(),
                fetch_seen == seen.filter(|k: u128| is_fetch_quest(board, k)),
                fetch_seen.finite(),
                count <= i,
                count == fetch_seen.len(),
        {
            let k = keys[i];
            assert(keys@.contains(k));
            assert(!seen.contains(k)) by {
                if seen.contains(k) {
                    let j = choose|j: int| 0 <= j < i && keys@.take(i as int)[j] == k;
                    assert(keys@[j] == keys@[i as int]);
                }
            }
            let fetch = match self.0.get(&k) {
                Some(quest) => match quest.quest_type {
                    QuestType::Fetch { .. } => true,
                    _ => false,
                },
                None => false,
            };
            proof {
                let pred = |k: u128| is_fetch_quest(board, k);
                let next = seen.insert(k);
                assert(keys@.take(i + 1) =~= keys@.take(i as int).push(k));
                assert(keys@.take(i + 1).to_set() =~= next) by {
                    assert forall|a: u128| #[trigger] next.contains(a) implies keys@.take(i + 1).contains(a) by {
                        if a == k {
                            assert(keys@.take(i + 1)[i as int] == k);
                        } else {
                            let j = choose|j: int| 0 <= j < i && keys@.take(i as int)[j] == a;
                            assert(keys@.take(i + 1)[j] == a);
                        }
                    }
                    assert forall|a: u128| keys@.take(i + 1).contains(a) implies #[trigger] next.contains(a) by {
                        let j = choose|j: int| 0 <= j < i + 1 && #[trigger] keys@.take(i + 1)[j] == a;
                        if j < i {
                            assert(keys@.take(i as int)[j] == a);
                        }
                    }
                }
                if fetch {
                    assert(next.filter(pred) =~= fetch_seen.insert(k));
                    assert(!fetch_seen.contains(k));
                    fetch_seen = fetch_seen.insert(k);
                } else {
                    assert(next.filter(pred) =~= fetch_seen);
                }
                seen = next;
            }
            if fetch {
                count = count + 1;
            }
        }
        proof {
            assert(keys@.take(keys@.len() as int) =~= keys@);
        }
        count
    }

    /// Whether a killed entity drops a quest item: only while fewer items exist
    /// than there are fetch quests, only from an imp, and then on a coin flip
    /// (tails). A `true` result means an item spawns.
    pub fn spawn_quest_drops(&self, num_items: usize, victim_is_imp: bool) -> (spawns: bool)
        ensures
            spawns ==> num_items < fetch_quest_count(self@) && victim_is_imp,
    {
        let num_fetch_quests = self.count_fetch_quests();
        if num_items >= num_fetch_quests || !victim_is_imp {
            return false;
        }
        let heads = draw_coin();
        quest_drop_spawns(num_items, num_fetch_quests, victim_is_imp, heads)
    }

    /// A quest giver the player interacts with proposes a fresh random quest,
    /// unless it already handed one out. Returns the proposed quest's identifier;
    /// the quest is on the board under it and the giver now holds it.
    pub fn propose_quest_if_none(&mut self, giver: &mut QuestGiver) -> (proposed: Option<QuestId>)
        ensures
            old(giver).given_quest is Some ==> {
                &&& proposed is None
                &&& final(self)@ == old(self)@
                &&& *final(giver) == *old(giver)
            },
            old(giver).given_quest is None ==> (proposed matches Some(id) && {
                &&& proposal_made(old(self)@, *old(giver), id, final(self)@, *final(giver))
                &&& final(self)@[id.0].is_generated()
            }),
            board_filed_by_id(old(self)@) ==> board_filed_by_id(final(self)@),
    {
        if giver.given_quest.is_some() {
            return None;
        }
        let quest = Quest::random();
        let quest_id = quest.id;
        self.0.insert(quest_id.0, quest);
        giver.given_quest = Some(quest_id);
        Some(quest_id)
    }

    /// Interacting with a quest giver whose quest is completed completes it.
    /// Fails when the giver's quest is not on the board.
    pub fn complete_quest_if_done(&self, giver: &QuestGiver) -> (result: Result<Option<CompleteQuest>, QuestError>)
        ensures
            result == match giver.given_quest {
                None => Ok(None),
                Some(id) => if !self@.contains_key(id.0) {
                    Err(QuestError::UnknownQuest)
                } else if self@[id.0].quest_type.completed() {
                    Ok(Some(CompleteQuest { quest_id: id }))
                } else {
                    Ok(None)
                },
            },
    {
        let quest_id = match giver.given_quest {
            Some(id) => id,
            None => return Ok(None),
        };
        let quest = match self.0.get(&quest_id.0) {
            Some(q) => q,
            None => return Err(QuestError::UnknownQuest),
        };
        if !quest.quest_type.is_completed() {
            return Ok(None);
        }
        Ok(Some(CompleteQuest { quest_id }))
    }

    /// An ended quest leaves the board, and the first giver holding it (in the
    /// order given) holds nothing any more. Fails, after the quest has left the
    /// board, when no giver holds it.
    pub fn remove_quest(&mut self, end: EndQuest, givers: &mut Vec<QuestGiver>) -> (result: Result<(), QuestError>)
        ensures
            final(self)@ == old(self)@.remove(end.quest_id.0),
            final(givers)@.len() == old(givers)@.len(),
            result is Ok <==> exists|j: int| 0 <= j < old(givers)@.len() && #[trigger] old(givers)@[j].holds(end.quest_id),
            result is Err ==> result == Err::<(), QuestError>(QuestError::QuestGiverMissing) && final(givers)@ == old(givers)@,
            result is Ok ==> quest_removed(old(self)@, old(givers)@, end.quest_id, final(self)@, final(givers)@),
            board_filed_by_id(old(self)@) ==> board_filed_by_id(final(self)@),
    {
        let _ = self.0.remove(&end.quest_id.0);
        let mut i: usize = 0;
        while i < givers.len()
            invariant
                0 <= i <= givers@.len(),
                givers@ == old(givers)@,
                self@ == old(self)@.remove(end.quest_id.0),
                forall|j: int| 0 <= j < i ==> !(#[trigger] givers@[j]).holds(end.quest_id),
            decreases givers@.len() - i,
        {
            let held = match givers[i].given_quest {
                Some(id) => id.0 == end.quest_id.0,
                None => false,
            };
            if held {
                assert(givers@[i as int].holds(end.quest_id));
                let cleared = QuestGiver { given_quest: None, quest_marker: givers[i].quest_marker };
                givers.set(i, cleared);
                return Ok(());
            }
            i = i + 1;
        }
        Err(QuestError::QuestGiverMissing)
    }

    /// Which quest marker shows over a giver: the "new" marker while it has no
    /// quest out; otherwise the "updated" marker exactly while its quest is
    /// completed. Fails when the giver's quest is not on the board.
    pub fn quest_marker_visibility(&self, giver: &QuestGiver) -> (result: Result<MarkerVisibility, QuestError>)
        ensures
            result == match giver.given_quest {
                None => Ok(MarkerVisibility { new_visible: true, updated_visible: false }),
                Some(id) => if !self@.contains_key(id.0) {
                    Err(QuestError::QuestNotFound)
                } else {
                    Ok(MarkerVisibility { new_visible: false, updated_visible: self@[id.0].quest_type.completed() })
                },
            },
    {
        match giver.given_quest {
            Some(quest_id) => {
                let quest = match self.0.get(&quest_id.0) {
                    Some(q) => q,
                    None => return Err(QuestError::QuestNotFound),
                };
                Ok(MarkerVisibility { new_visible: false, updated_visible: quest.quest_type.is_completed() })
            },
            None => Ok(MarkerVisibility { new_visible: true, updated_visible: false }),
        }
    }

    /// Whether completing quest `complete` hands over an item from the
    /// inventory: exactly for a completed fetch quest. Fails when the quest is
    /// not on the board.
    pub fn consume_quest_drop(&self, complete: CompleteQuest) -> (result: Result<bool, QuestError>)
        ensures
            result == if !self@.contains_key(complete.quest_id.0) {
                Err(QuestError::UnknownQuest)
            } else {
                Ok(self@[complete.quest_id.0].quest_type is Fetch && self@[complete.quest_id.0].quest_type.completed())
            },
    {
        let quest = match self.0.get(&complete.quest_id.0) {
            Some(q) => q,
            None => return Err(QuestError::UnknownQuest),
        };
        match quest.quest_type {
            QuestType::Fetch { .. } => Ok(quest.quest_type.is_completed()),
            _ => Ok(false),
        }
    }
}

/// Takes the item handed over for a fetch quest: the last item of the
/// inventory. Fails when the inventory is empty.
pub fn take_quest_drop(inventory: &mut Vec<u64>) -> (result: Result<u64, QuestError>)
    ensures
        old(inventory)@.len() == 0 ==> result == Err::<u64, QuestError>(QuestError::NoItemToConsume) && final(inventory)@ == old(inventory)@,
        old(inventory)@.len() > 0 ==> result == Ok::<u64, QuestError>(old(inventory)@.last()) && final(inventory)@ == old(inventory)@.drop_last(),
{
    match inventory.pop() {
        Some(item) => Ok(item),
        None => Err(QuestError::NoItemToConsume),
    }
}

/// Whether inventories of the given sizes hold some item in total.
pub fn holds_any_item(inventory_sizes: &Vec<usize>) -> (any: bool)
    ensures
        any == (size_total(inventory_sizes@) > 0),
{
    let mut any = false;
    for i in 0..inventory_sizes.len()
        invariant
            any == (size_total(inventory_sizes@.take(i as int)) > 0),
            size_total(inventory_sizes@.take(i as int)) >= 0,
    {
        assert(inventory_sizes@.take(i + 1).drop_last() =~= inventory_sizes@.take(i as int));
        if inventory_sizes[i] > 0 {
            any = true;
        }
    }
    assert(inventory_sizes@.take(inventory_sizes@.len() as int) =~= inventory_sizes@);
    any
}

/// Whether a quest drop spawns, given the number of items, the number of fetch
/// quests, whether the killed entity is an imp and the coin flip.
pub fn quest_drop_spawns(num_items: usize, num_fetch_quests: usize, victim_is_imp: bool, heads: bool) -> (spawns: bool)
    ensures
        spawns == spec_quest_drop_spawns(num_items as nat, num_fetch_quests as nat, victim_is_imp, heads),
{
    if num_items >= num_fetch_quests {
        return false;
    }
    if victim_is_imp {
        if heads {
            return false;
        }
        return true;
    }
    false
}

/// Proposing a quest to a giver that holds none, under an identifier not yet
/// on the board, and then ending that quest with that giver, succeeds and
/// leaves the board and the giver as they were.
pub proof fn lemma_propose_then_remove_restores(
    board: Map<u128, Quest>,
    giver: QuestGiver,
    id: QuestId,
    board_proposed: Map<u128, Quest>,
    giver_proposed: QuestGiver,
    board_ended: Map<u128, Quest>,
    givers_ended: Seq<QuestGiver>,
)
    requires
        !board.contains_key(id.0),
        giver.given_quest is None,
        proposal_made(board, giver, id, board_proposed, giver_proposed),
        quest_removed(board_proposed, seq![giver_proposed], id, board_ended, givers_ended),
    ensures
        seq![giver_proposed][0].holds(id),
        board_ended == board,
        givers_ended == seq![giver],
{
    let i = choose|i: int| {
        &&& 0 <= i < seq![giver_proposed].len()
        &&& seq![giver_proposed][i].holds(id)
        &&& forall|j: int| 0 <= j < i ==> !(#[trigger] seq![giver_proposed][j]).holds(id)
        &&& givers_ended == seq![giver_proposed].update(i, QuestGiver { given_quest: None, quest_marker: seq![giver_proposed][i].quest_marker })
    };
    assert(i == 0);
    assert(givers_ended =~= seq![giver]);
    assert(board_ended =~= board);
}

/// A killed imp never undoes a completed quest anywhere on the board.
pub proof fn lemma_imp_kill_keeps_board_completion(board: Map<u128, Quest>, k: u128)
    requires
        board.contains_key(k),
        board[k].quest_type matches QuestType::Kill { done, .. } ==> done < u32::MAX,
    ensures
        board.map_values(|q: Quest| q.after_imp_kill()).contains_key(k),
        board[k].quest_type.completed() ==> board.map_values(|q: Quest| q.after_imp_kill())[k].quest_type.completed(),
        board[k].quest_type.spec_progress() <= board.map_values(|q: Quest| q.after_imp_kill())[k].quest_type.spec_progress(),
{
    lemma_imp_kill_keeps_completion(board[k].quest_type);
}

/// After an inventory change, every fetch quest is completed exactly while some
/// item is held, and no other quest changes.
pub proof fn lemma_fetch_completion_tracks_inventory(board: Map<u128, Quest>, has_items: bool, k: u128)
    requires
        board.contains_key(k),
    ensures
        ({
            let after = board.map_values(|q: Quest| q.after_inventory_change(has_items));
            &&& after.contains_key(k)
            &&& board[k].quest_type is Fetch ==> after[k].quest_type.completed() == has_items
            &&& !(board[k].quest_type is Fetch) ==> after[k] == board[k]
        }),
{
}

} // verus!
