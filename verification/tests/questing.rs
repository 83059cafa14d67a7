use sbepis::questing::{
    complete_to_end, decline_to_end, end_quest_if_giver_killed, holds_any_item, quest_drop_spawns,
    take_quest_drop, CompleteQuest, DeclineQuest, EndQuest, MarkerVisibility, Quest, QuestError,
    QuestGiver, QuestId, QuestType, Quests,
};

fn giver_with(id: Option<QuestId>) -> QuestGiver {
    let mut giver = QuestGiver::new();
    giver.given_quest = id;
    giver
}

fn board_with(quests: Vec<Quest>) -> Quests {
    let mut board = Quests::new();
    for quest in quests {
        board.0.insert(quest.id.as_u128(), quest);
    }
    board
}

#[test]
fn quest_type_progress_values() {
    let fetch_open = QuestType::Fetch { done: false };
    let fetch_done = QuestType::Fetch { done: true };
    let kill_partial = QuestType::Kill { amount: 3, done: 2 };
    let kill_over = QuestType::Kill { amount: 3, done: 7 };
    let pages = QuestType::FindMyPages;

    assert!(!fetch_open.is_completed());
    assert!(fetch_done.is_completed());
    assert!(!kill_partial.is_completed());
    assert!(kill_over.is_completed());
    assert!(!pages.is_completed());

    assert_eq!(fetch_open.progress(), 0);
    assert_eq!(fetch_done.progress(), 1);
    assert_eq!(kill_partial.progress(), 2);
    assert_eq!(kill_over.progress(), 3);
    assert_eq!(pages.progress(), 0);

    assert_eq!(fetch_open.max_progress(), 1);
    assert_eq!(kill_partial.max_progress(), 3);
    assert_eq!(pages.max_progress(), 8);
    for t in [fetch_open, fetch_done, kill_partial, kill_over, pages] {
        assert_eq!(t.min_progress(), 0);
        assert!(t.min_progress() <= t.progress() && t.progress() <= t.max_progress());
        assert_eq!(t.is_completed(), t.progress() == t.max_progress());
    }
}

#[test]
fn kill_quest_with_zero_amount_is_complete() {
    let t = QuestType::Kill { amount: 0, done: 0 };
    assert!(t.is_completed());
    assert_eq!(t.progress(), 0);
    assert_eq!(t.max_progress(), 0);
}

#[test]
fn quest_id_text_is_hyphenated_lowercase() {
    let id = QuestId::from_u128(0xa1a2a3a4b1b2c1c2d1d2d3d4d5d6d7d8);
    assert_eq!(id.to_string(), "a1a2a3a4-b1b2-c1c2-d1d2-d3d4d5d6d7d8");
    assert_eq!(QuestId::from_u128(0).to_string(), "00000000-0000-0000-0000-000000000000");
    assert_eq!(id.as_u128(), 0xa1a2a3a4b1b2c1c2d1d2d3d4d5d6d7d8);
}

#[test]
fn fresh_quest_ids_are_version_four() {
    let a = QuestId::new();
    let b = QuestId::new();
    assert_ne!(a, b);
    for id in [a, b] {
        let v = id.as_u128();
        assert_eq!((v >> 76) & 0xf, 4);
        assert_eq!((v >> 62) & 0x3, 2);
    }
}

#[test]
fn quests_from_draws() {
    let id = QuestId::from_u128(7);
    let fetch = Quest::from_draw(id, 0, 9);
    assert_eq!(fetch.id, id);
    assert_eq!(fetch.quest_type, QuestType::Fetch { done: false });
    assert_eq!(fetch.name, "Awesome Fetch Quest");
    assert_eq!(fetch.description, "imps stole my orange cube... pwease go get it back!!");

    let kill = Quest::from_draw(id, 1, 4);
    assert_eq!(kill.quest_type, QuestType::Kill { amount: 4, done: 0 });
    assert_eq!(kill.name, "Awesome Kill Quest");
    assert_eq!(
        kill.description,
        "imps killed my grandma... pwease go take revenge on those darn imps for me... kill 4!!"
    );
    let kill_many = Quest::from_draw(id, 1, 1234567);
    assert!(kill_many.description.ends_with("kill 1234567!!"));

    let pages = Quest::from_draw(id, 2, 1);
    assert_eq!(pages.quest_type, QuestType::FindMyPages);
    assert_eq!(pages.name, "Find my pages.");
    assert_eq!(pages.description, "Find my pages.");
}

#[test]
fn random_quests_are_well_formed() {
    for _ in 0..300 {
        let quest = Quest::random();
        match quest.quest_type {
            QuestType::Fetch { done } => {
                assert!(!done);
                assert_eq!(quest.name, "Awesome Fetch Quest");
            }
            QuestType::Kill { amount, done } => {
                assert!((1..=5).contains(&amount));
                assert_eq!(done, 0);
                assert_eq!(quest.description, format!(
                    "imps killed my grandma... pwease go take revenge on those darn imps for me... kill {amount}!!"
                ));
            }
            QuestType::FindMyPages => assert_eq!(quest.name, "Find my pages."),
        }
        assert_eq!((quest.id.as_u128() >> 76) & 0xf, 4);
    }
}

#[test]
fn propose_only_when_giver_is_free() {
    let mut board = Quests::new();
    let mut giver = QuestGiver::new();
    giver.quest_marker = Some(42);
    let proposed = board.propose_quest_if_none(&mut giver).expect("free giver proposes");
    assert_eq!(giver.given_quest, Some(proposed));
    assert_eq!(giver.quest_marker, Some(42));
    assert_eq!(board.len(), 1);
    assert_eq!(board.get(proposed).unwrap().id, proposed);

    assert_eq!(board.propose_quest_if_none(&mut giver), None);
    assert_eq!(board.len(), 1);
    assert_eq!(giver.given_quest, Some(proposed));
}

#[test]
fn propose_then_remove_restores_board_and_giver() {
    let existing = Quest::from_draw(QuestId::from_u128(1), 2, 1);
    let mut board = board_with(vec![existing]);
    let mut givers = vec![QuestGiver::new()];
    let before = givers[0];
    let proposed = board.propose_quest_if_none(&mut givers[0]).unwrap();
    assert_eq!(board.len(), 2);
    assert_eq!(board.remove_quest(EndQuest { quest_id: proposed }, &mut givers), Ok(()));
    assert_eq!(givers[0], before);
    assert_eq!(board.len(), 1);
    assert!(board.get(QuestId::from_u128(1)).is_some());
}

#[test]
fn complete_quest_if_done_cases() {
    let done_id = QuestId::from_u128(10);
    let open_id = QuestId::from_u128(11);
    let mut done = Quest::from_draw(done_id, 1, 2);
    done.quest_type = QuestType::Kill { amount: 2, done: 2 };
    let open = Quest::from_draw(open_id, 1, 2);
    let board = board_with(vec![done, open]);

    assert_eq!(board.complete_quest_if_done(&giver_with(None)), Ok(None));
    assert_eq!(
        board.complete_quest_if_done(&giver_with(Some(done_id))),
        Ok(Some(CompleteQuest { quest_id: done_id }))
    );
    assert_eq!(board.complete_quest_if_done(&giver_with(Some(open_id))), Ok(None));
    assert_eq!(
        board.complete_quest_if_done(&giver_with(Some(QuestId::from_u128(99)))),
        Err(QuestError::UnknownQuest)
    );
    assert_eq!(QuestError::UnknownQuest.message(), "Unknown quest");
}

#[test]
fn events_end_quests() {
    let id = QuestId::from_u128(5);
    assert_eq!(complete_to_end(CompleteQuest { quest_id: id }), EndQuest { quest_id: id });
    assert_eq!(decline_to_end(DeclineQuest { quest_proposal: 3, quest_id: id }), EndQuest { quest_id: id });
    assert_eq!(end_quest_if_giver_killed(Some(giver_with(Some(id)))), Some(EndQuest { quest_id: id }));
    assert_eq!(end_quest_if_giver_killed(Some(giver_with(None))), None);
    assert_eq!(end_quest_if_giver_killed(None), None);
}

#[test]
fn remove_quest_clears_first_holder_only() {
    let id = QuestId::from_u128(20);
    let mut board = board_with(vec![Quest::from_draw(id, 0, 1)]);
    let other = giver_with(Some(QuestId::from_u128(21)));
    let mut givers = vec![other, giver_with(Some(id)), giver_with(Some(id))];
    assert_eq!(board.remove_quest(EndQuest { quest_id: id }, &mut givers), Ok(()));
    assert!(board.get(id).is_none());
    assert_eq!(givers[0], other);
    assert_eq!(givers[1].given_quest, None);
    assert_eq!(givers[2].given_quest, Some(id));
}

#[test]
fn remove_quest_without_holder_fails_after_removing() {
    let id = QuestId::from_u128(30);
    let mut board = board_with(vec![Quest::from_draw(id, 0, 1)]);
    let mut givers = vec![giver_with(None)];
    assert_eq!(
        board.remove_quest(EndQuest { quest_id: id }, &mut givers),
        Err(QuestError::QuestGiverMissing)
    );
    assert!(board.get(id).is_none());
    assert_eq!(givers[0], giver_with(None));
    assert_eq!(QuestError::QuestGiverMissing.message(), "Quest giver missing");
}

#[test]
fn imp_kills_count_towards_kill_quests() {
    let kill_id = QuestId::from_u128(40);
    let fetch_id = QuestId::from_u128(41);
    let mut board = board_with(vec![Quest::from_draw(kill_id, 1, 2), Quest::from_draw(fetch_id, 0, 1)]);
    board.update_killed_imps(false);
    assert_eq!(board.get(kill_id).unwrap().quest_type, QuestType::Kill { amount: 2, done: 0 });
    board.update_killed_imps(true);
    board.update_killed_imps(true);
    assert_eq!(board.get(kill_id).unwrap().quest_type, QuestType::Kill { amount: 2, done: 2 });
    assert!(board.get(kill_id).unwrap().quest_type.is_completed());
    board.update_killed_imps(true);
    assert!(board.get(kill_id).unwrap().quest_type.is_completed());
    assert_eq!(board.get(fetch_id).unwrap().quest_type, QuestType::Fetch { done: false });
}

#[test]
fn picked_up_items_complete_fetch_quests() {
    let fetch_id = QuestId::from_u128(50);
    let pages_id = QuestId::from_u128(51);
    let mut board = board_with(vec![Quest::from_draw(fetch_id, 0, 1), Quest::from_draw(pages_id, 2, 1)]);
    board.update_picked_up_items(&vec![0, 2, 0]);
    assert_eq!(board.get(fetch_id).unwrap().quest_type, QuestType::Fetch { done: true });
    assert_eq!(board.get(pages_id).unwrap().quest_type, QuestType::FindMyPages);
    board.update_picked_up_items(&vec![0, 0]);
    assert_eq!(board.get(fetch_id).unwrap().quest_type, QuestType::Fetch { done: false });
    board.update_picked_up_items(&vec![]);
    assert_eq!(board.get(fetch_id).unwrap().quest_type, QuestType::Fetch { done: false });
    assert!(holds_any_item(&vec![0, 0, 1]));
    assert!(!holds_any_item(&vec![]));
}

#[test]
fn quest_drops_follow_fetch_quests() {
    let board = board_with(vec![
        Quest::from_draw(QuestId::from_u128(60), 0, 1),
        Quest::from_draw(QuestId::from_u128(61), 0, 1),
        Quest::from_draw(QuestId::from_u128(62), 1, 1),
    ]);
    assert_eq!(board.count_fetch_quests(), 2);
    assert_eq!(Quests::new().count_fetch_quests(), 0);
    assert!(!board.spawn_quest_drops(2, true));
    assert!(!board.spawn_quest_drops(0, false));
    assert!(quest_drop_spawns(1, 2, true, false));
    assert!(!quest_drop_spawns(1, 2, true, true));
    assert!(!quest_drop_spawns(2, 2, true, false));
    assert!(!quest_drop_spawns(0, 2, false, false));
    let mut spawned = false;
    for _ in 0..200 {
        spawned |= board.spawn_quest_drops(1, true);
    }
    assert!(spawned);
}

#[test]
fn marker_visibility_follows_quest() {
    let pages_id = QuestId::from_u128(70);
    let fetch_id = QuestId::from_u128(71);
    let board = board_with(vec![Quest::from_draw(pages_id, 2, 1), Quest::from_draw(fetch_id, 0, 1)]);
    let mut board = board;
    board.update_picked_up_items(&vec![1]);
    assert_eq!(
        board.quest_marker_visibility(&giver_with(None)),
        Ok(MarkerVisibility { new_visible: true, updated_visible: false })
    );
    assert_eq!(
        board.quest_marker_visibility(&giver_with(Some(fetch_id))),
        Ok(MarkerVisibility { new_visible: false, updated_visible: true })
    );
    assert_eq!(
        board.quest_marker_visibility(&giver_with(Some(pages_id))),
        Ok(MarkerVisibility { new_visible: false, updated_visible: false })
    );
    assert_eq!(
        board.quest_marker_visibility(&giver_with(Some(QuestId::from_u128(1)))),
        Err(QuestError::QuestNotFound)
    );
    assert_eq!(QuestError::QuestNotFound.message(), "Quest not found");
}

#[test]
fn consume_quest_drop_cases() {
    let fetch_id = QuestId::from_u128(80);
    let kill_id = QuestId::from_u128(81);
    let mut board = board_with(vec![Quest::from_draw(fetch_id, 0, 1), Quest::from_draw(kill_id, 1, 0)]);
    assert_eq!(board.consume_quest_drop(CompleteQuest { quest_id: fetch_id }), Ok(false));
    board.update_picked_up_items(&vec![1]);
    assert_eq!(board.consume_quest_drop(CompleteQuest { quest_id: fetch_id }), Ok(true));
    assert_eq!(board.consume_quest_drop(CompleteQuest { quest_id: kill_id }), Ok(false));
    assert_eq!(
        board.consume_quest_drop(CompleteQuest { quest_id: QuestId::from_u128(2) }),
        Err(QuestError::UnknownQuest)
    );
    let mut inventory = vec![5, 6];
    assert_eq!(take_quest_drop(&mut inventory), Ok(6));
    assert_eq!(inventory, vec![5]);
    let mut empty: Vec<u64> = vec![];
    assert_eq!(take_quest_drop(&mut empty), Err(QuestError::NoItemToConsume));
    assert_eq!(QuestError::NoItemToConsume.message(), "No item to consume");
}

#[test]
fn dialogue_text_joins_name_and_description() {
    let quest = Quest::from_draw(QuestId::from_u128(3), 2, 1);
    assert_eq!(quest.dialogue_text(), "Find my pages.\n\nFind my pages.");
}

#[test]
fn kill_counts_written_in_decimal() {
    let id = QuestId::from_u128(8);
    for amount in [0u32, 7, 10, 100, 305, 99999, u32::MAX] {
        let quest = Quest::from_draw(id, 1, amount);
        assert!(quest.description.ends_with(&format!(" kill {}!!", amount)));
    }
    assert!(Quest::from_draw(id, 1, 0).description.ends_with(" kill 0!!"));
    assert!(Quest::from_draw(id, 1, 4294967295).description.ends_with(" kill 4294967295!!"));
}
