use server_bot::config::VoiceChatConfig;
use server_bot::presence::{DelayedCheck, PresenceState, VoiceEvent};

fn group(
    role: u64,
    dest: u64,
    channels: Vec<u64>,
    start: Vec<&str>,
    end: Vec<&str>,
) -> (u64, VoiceChatConfig) {
    (
        role,
        VoiceChatConfig {
            voice_channel_ids: channels,
            text_channel_id: dest,
            guild_ids: vec![1],
            start_msgs: start.into_iter().map(|s| s.to_string()).collect(),
            end_msgs: end.into_iter().map(|s| s.to_string()).collect(),
        },
    )
}

fn join(user: u64, ch: u64) -> VoiceEvent {
    VoiceEvent { user_id: user, old_channel: None, new_channel: Some(ch), is_bot: false }
}

fn leave(user: u64, ch: u64) -> VoiceEvent {
    VoiceEvent { user_id: user, old_channel: Some(ch), new_channel: None, is_bot: false }
}

fn move_between(user: u64, old: u64, new: u64) -> VoiceEvent {
    VoiceEvent { user_id: user, old_channel: Some(old), new_channel: Some(new), is_bot: false }
}

#[test]
fn first_join_schedules_exactly_one_arrival_check() {
    let configs = vec![group(1, 100, vec![10, 11], vec!["hey"], vec!["bye"])];
    let mut state = PresenceState::new();
    let checks = state.handle_voice_event(&configs, &join(7, 10));
    assert_eq!(checks, vec![DelayedCheck { role_id: 1, is_arrival: true }]);
    assert!(state.contains_user(1, 7));
}

#[test]
fn second_join_schedules_no_further_check() {
    let configs = vec![group(1, 100, vec![10], vec!["hey"], vec!["bye"])];
    let mut state = PresenceState::new();
    let first = state.handle_voice_event(&configs, &join(7, 10));
    assert_eq!(first.len(), 1);
    let second = state.handle_voice_event(&configs, &join(8, 10));
    assert!(second.is_empty());
    assert!(state.contains_user(1, 7));
    assert!(state.contains_user(1, 8));
}

#[test]
fn arrival_check_sends_when_the_group_is_still_occupied() {
    let configs = vec![group(1, 100, vec![10], vec!["game on"], vec!["bye"])];
    let mut state = PresenceState::new();
    let checks = state.handle_voice_event(&configs, &join(7, 10));
    assert_eq!(checks.len(), 1);
    let note = state
        .run_delayed_check(&configs, &checks[0])
        .expect("the group is still occupied, so the check must send");
    assert_eq!(note.text_channel_id, 100);
    assert_eq!(note.role_id, 1);
    assert_eq!(note.message, "game on");
}

#[test]
fn flicker_join_then_leave_suppresses_the_arrival_check() {
    let configs = vec![group(1, 100, vec![10, 11], vec!["hey"], vec!["bye"])];
    let mut state = PresenceState::new();
    let arrival_checks = state.handle_voice_event(&configs, &join(7, 10));
    assert_eq!(arrival_checks.len(), 1);
    let _departure_checks = state.handle_voice_event(&configs, &leave(7, 10));
    assert!(state.run_delayed_check(&configs, &arrival_checks[0]).is_none());
}

#[test]
fn flicker_with_empty_departure_pool_sends_nothing_at_all() {
    let configs = vec![group(1, 100, vec![10, 11], vec!["hey"], vec![])];
    let mut state = PresenceState::new();
    let arrival_checks = state.handle_voice_event(&configs, &join(7, 10));
    assert_eq!(arrival_checks.len(), 1);
    let departure_checks = state.handle_voice_event(&configs, &leave(7, 10));
    assert!(departure_checks.is_empty());
    assert!(state.run_delayed_check(&configs, &arrival_checks[0]).is_none());
}

#[test]
fn empty_arrival_pool_schedules_nothing() {
    let configs = vec![group(1, 100, vec![10], vec![], vec!["bye"])];
    let mut state = PresenceState::new();
    let checks = state.handle_voice_event(&configs, &join(7, 10));
    assert!(checks.is_empty());
    assert!(state.contains_user(1, 7));
}

#[test]
fn last_leave_schedules_exactly_one_departure_check() {
    let configs = vec![group(1, 100, vec![10], vec!["hey"], vec!["all quiet"])];
    let mut state = PresenceState::new();
    state.handle_voice_event(&configs, &join(7, 10));
    let checks = state.handle_voice_event(&configs, &leave(7, 10));
    assert_eq!(checks, vec![DelayedCheck { role_id: 1, is_arrival: false }]);
    let note = state
        .run_delayed_check(&configs, &checks[0])
        .expect("the group is still empty, so the check must send");
    assert_eq!(note.message, "all quiet");
    assert_eq!(note.text_channel_id, 100);
}

#[test]
fn departure_check_is_suppressed_when_someone_rejoins() {
    let configs = vec![group(1, 100, vec![10], vec!["hey"], vec!["all quiet"])];
    let mut state = PresenceState::new();
    state.handle_voice_event(&configs, &join(7, 10));
    let departure_checks = state.handle_voice_event(&configs, &leave(7, 10));
    assert_eq!(departure_checks.len(), 1);
    state.handle_voice_event(&configs, &join(8, 10));
    assert!(state.run_delayed_check(&configs, &departure_checks[0]).is_none());
}

#[test]
fn leaving_only_one_of_several_occupants_schedules_nothing() {
    let configs = vec![group(1, 100, vec![10], vec!["hey"], vec!["bye"])];
    let mut state = PresenceState::new();
    state.handle_voice_event(&configs, &join(7, 10));
    state.handle_voice_event(&configs, &join(8, 10));
    let checks = state.handle_voice_event(&configs, &leave(7, 10));
    assert!(checks.is_empty());
    assert!(state.contains_user(1, 8));
}

#[test]
fn move_within_one_group_is_a_no_op() {
    let configs = vec![group(1, 100, vec![10, 11], vec!["hey"], vec!["bye"])];
    let mut state = PresenceState::new();
    state.handle_voice_event(&configs, &join(7, 10));
    let checks = state.handle_voice_event(&configs, &move_between(7, 10, 11));
    assert!(checks.is_empty());
    assert!(state.contains_user(1, 7));
}

#[test]
fn move_between_disjoint_groups_evaluates_both_edges() {
    let configs = vec![
        group(1, 100, vec![10], vec!["g1 in"], vec!["g1 out"]),
        group(2, 200, vec![20], vec!["g2 in"], vec!["g2 out"]),
    ];
    let mut state = PresenceState::new();
    state.handle_voice_event(&configs, &join(7, 10));
    let checks = state.handle_voice_event(&configs, &move_between(7, 10, 20));
    assert_eq!(
        checks,
        vec![
            DelayedCheck { role_id: 1, is_arrival: false },
            DelayedCheck { role_id: 2, is_arrival: true },
        ]
    );
    assert!(!state.contains_user(1, 7));
    assert!(state.contains_user(2, 7));
}

#[test]
fn move_between_overlapping_groups_keeps_the_user() {
    let configs = vec![
        group(1, 100, vec![10, 20], vec!["g1 in"], vec!["g1 out"]),
        group(2, 200, vec![10], vec!["g2 in"], vec!["g2 out"]),
    ];
    let mut state = PresenceState::new();
    state.handle_voice_event(&configs, &join(7, 10));
    let checks = state.handle_voice_event(&configs, &move_between(7, 10, 20));
    // The user's new channel is still watched by group 1, so they stay in
    // its set; only group 2 loses them.
    assert!(state.contains_user(1, 7));
    assert!(!state.contains_user(2, 7));
    assert_eq!(
        checks,
        vec![
            DelayedCheck { role_id: 1, is_arrival: false },
            DelayedCheck { role_id: 2, is_arrival: false },
            DelayedCheck { role_id: 1, is_arrival: true },
        ]
    );
    // Group 1 is still occupied at fire time, so its departure check is
    // suppressed; group 2 really emptied, so its check sends.
    assert!(state.run_delayed_check(&configs, &checks[0]).is_none());
    let note = state.run_delayed_check(&configs, &checks[1]).unwrap();
    assert_eq!(note.message, "g2 out");
    assert_eq!(note.text_channel_id, 200);
}

#[test]
fn overlapping_groups_each_get_their_own_check() {
    let configs = vec![
        group(1, 100, vec![10], vec!["g1 in"], vec!["g1 out"]),
        group(2, 200, vec![10, 20], vec!["g2 in"], vec!["g2 out"]),
    ];
    let mut state = PresenceState::new();
    let checks = state.handle_voice_event(&configs, &join(7, 10));
    assert_eq!(
        checks,
        vec![
            DelayedCheck { role_id: 1, is_arrival: true },
            DelayedCheck { role_id: 2, is_arrival: true },
        ]
    );
}

#[test]
fn bot_events_are_ignored() {
    let configs = vec![group(1, 100, vec![10], vec!["hey"], vec!["bye"])];
    let mut state = PresenceState::new();
    let ev = VoiceEvent { user_id: 7, old_channel: None, new_channel: Some(10), is_bot: true };
    let checks = state.handle_voice_event(&configs, &ev);
    assert!(checks.is_empty());
    assert!(!state.contains_user(1, 7));
}

#[test]
fn event_without_channels_is_ignored() {
    let configs = vec![group(1, 100, vec![10], vec!["hey"], vec!["bye"])];
    let mut state = PresenceState::new();
    let ev = VoiceEvent { user_id: 7, old_channel: None, new_channel: None, is_bot: false };
    assert!(state.handle_voice_event(&configs, &ev).is_empty());
}

#[test]
fn joins_to_unwatched_channels_change_nothing() {
    let configs = vec![group(1, 100, vec![10], vec!["hey"], vec!["bye"])];
    let mut state = PresenceState::new();
    let checks = state.handle_voice_event(&configs, &join(7, 99));
    assert!(checks.is_empty());
    assert!(state.role_empty(1));
}

#[test]
fn leave_of_an_absent_user_schedules_nothing() {
    let configs = vec![group(1, 100, vec![10], vec!["hey"], vec!["bye"])];
    let mut state = PresenceState::new();
    let checks = state.handle_voice_event(&configs, &leave(7, 10));
    assert!(checks.is_empty());
}

#[test]
fn check_for_an_unknown_group_is_dropped() {
    let configs = vec![group(1, 100, vec![10], vec!["hey"], vec!["bye"])];
    let state = PresenceState::new();
    let check = DelayedCheck { role_id: 42, is_arrival: true };
    assert!(state.run_delayed_check(&configs, &check).is_none());
}

#[test]
fn chosen_message_always_comes_from_the_matching_pool() {
    let configs = vec![group(1, 100, vec![10], vec!["a", "b", "c"], vec!["x", "y"])];
    let mut state = PresenceState::new();
    let checks = state.handle_voice_event(&configs, &join(7, 10));
    for _ in 0..32 {
        let note = state.run_delayed_check(&configs, &checks[0]).unwrap();
        assert!(["a", "b", "c"].contains(&note.message.as_str()));
    }
}
