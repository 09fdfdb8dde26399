use se_button::coordinator::PlaybackCoordinator;
use se_button::decoder::{decode_midi, SemanticEvent};
use se_button::player::{AudioAction, BGMType};
use se_button::registry::CueRegistry;

fn row(id: &str, volume: &str, class: &str) -> Vec<String> {
    vec![
        id.to_string(),
        format!("cue {}", id),
        format!("{}.mp3", id),
        volume.to_string(),
        class.to_string(),
    ]
}

fn coordinator(rows: Vec<Vec<String>>) -> PlaybackCoordinator {
    let reg = CueRegistry::from_rows(&rows).unwrap();
    PlaybackCoordinator::new(&reg)
}

fn player_state(c: &PlaybackCoordinator, id: u8) -> (bool, u32) {
    for p in c.players.iter() {
        if p.id == id {
            return (p.live, p.volume);
        }
    }
    panic!("no player for cue {}", id);
}

#[test]
fn background_cue_starts_restarts_are_ignored_and_pad_touch_clears() {
    let mut c = coordinator(vec![row("60", "0.5", "BGM")]);
    let acts = c.handle_event(SemanticEvent::CueDown(60));
    assert_eq!(acts, vec![AudioAction::Start { id: 60, volume: 50 }]);
    assert_eq!(c.active_background, Some(60));
    assert!(player_state(&c, 60).0);

    let acts = c.handle_event(SemanticEvent::CueDown(60));
    assert_eq!(acts, vec![]);
    assert_eq!(c.active_background, Some(60));

    let acts = c.handle_event(SemanticEvent::PadTouch(0));
    assert_eq!(acts, vec![AudioAction::Stop { id: 60 }]);
    assert_eq!(c.active_background, None);
    assert!(!player_state(&c, 60).0);
}

#[test]
fn second_background_cue_is_ignored_while_first_is_active() {
    let mut c = coordinator(vec![row("60", "0.5", "BGM"), row("61", "0.5", "BGM")]);
    c.handle_event(SemanticEvent::CueDown(60));
    let acts = c.handle_event(SemanticEvent::CueDown(61));
    assert_eq!(acts, vec![]);
    assert_eq!(c.active_background, Some(60));
    assert!(player_state(&c, 60).0);
    assert!(!player_state(&c, 61).0);
}

#[test]
fn held_cue_stops_on_key_up() {
    let mut c = coordinator(vec![row("62", "0.5", "LongSE")]);
    let acts = c.handle_event(SemanticEvent::CueDown(62));
    assert_eq!(acts, vec![AudioAction::Start { id: 62, volume: 50 }]);
    assert!(player_state(&c, 62).0);
    let acts = c.handle_event(SemanticEvent::CueUp(62));
    assert_eq!(acts, vec![AudioAction::Stop { id: 62 }]);
    assert!(!player_state(&c, 62).0);
}

#[test]
fn one_shot_cue_ignores_key_up() {
    let mut c = coordinator(vec![row("63", "0.5", "ShortSE")]);
    c.handle_event(SemanticEvent::CueDown(63));
    let acts = c.handle_event(SemanticEvent::CueUp(63));
    assert_eq!(acts, vec![]);
    assert!(player_state(&c, 63).0);
}

#[test]
fn key_up_on_background_cue_is_ignored() {
    let mut c = coordinator(vec![row("60", "0.5", "BGM")]);
    c.handle_event(SemanticEvent::CueDown(60));
    let acts = c.handle_event(SemanticEvent::CueUp(60));
    assert_eq!(acts, vec![]);
    assert!(player_state(&c, 60).0);
    assert_eq!(c.active_background, Some(60));
}

#[test]
fn knob_turn_adjusts_active_background_volume_only_at_full_detent() {
    let mut c = coordinator(vec![row("60", "0.5", "BGM")]);
    c.handle_event(SemanticEvent::CueDown(60));

    let acts = c.handle_event(SemanticEvent::KnobTurn(1, 127));
    assert_eq!(acts, vec![AudioAction::SetVolume { id: 60, volume: 55 }]);
    assert_eq!(player_state(&c, 60).1, 55);

    let acts = c.handle_event(SemanticEvent::KnobTurn(1, 50));
    assert_eq!(acts, vec![]);
    assert_eq!(player_state(&c, 60).1, 55);

    let acts = c.handle_event(SemanticEvent::KnobTurn(2, 127));
    assert_eq!(acts, vec![AudioAction::SetVolume { id: 60, volume: 50 }]);
    assert_eq!(player_state(&c, 60).1, 50);

    let acts = c.handle_event(SemanticEvent::KnobTurn(2, 126));
    assert_eq!(acts, vec![]);
    assert_eq!(player_state(&c, 60).1, 50);

    let acts = c.handle_event(SemanticEvent::KnobTurn(3, 127));
    assert_eq!(acts, vec![]);
    assert_eq!(player_state(&c, 60).1, 50);
}

#[test]
fn knob_turn_without_active_background_is_ignored() {
    let mut c = coordinator(vec![row("63", "0.5", "ShortSE")]);
    c.handle_event(SemanticEvent::CueDown(63));
    let acts = c.handle_event(SemanticEvent::KnobTurn(1, 127));
    assert_eq!(acts, vec![]);
    assert_eq!(player_state(&c, 63).1, 50);
}

#[test]
fn pad_touch_stops_only_the_background_cue() {
    let mut c = coordinator(vec![
        row("60", "0.5", "BGM"),
        row("63", "0.5", "ShortSE"),
        row("62", "0.5", "LongSE"),
    ]);
    c.handle_event(SemanticEvent::CueDown(60));
    c.handle_event(SemanticEvent::CueDown(63));
    c.handle_event(SemanticEvent::CueDown(62));
    let acts = c.handle_event(SemanticEvent::PadTouch(0));
    assert_eq!(acts, vec![AudioAction::Stop { id: 60 }]);
    assert_eq!(c.active_background, None);
    assert!(!player_state(&c, 60).0);
    assert!(player_state(&c, 63).0);
    assert!(player_state(&c, 62).0);
}

#[test]
fn pad_touch_off_center_is_ignored() {
    let mut c = coordinator(vec![row("60", "0.5", "BGM")]);
    c.handle_event(SemanticEvent::CueDown(60));
    let acts = c.handle_event(SemanticEvent::PadTouch(64));
    assert_eq!(acts, vec![]);
    assert_eq!(c.active_background, Some(60));
}

#[test]
fn pad_touch_with_empty_slot_is_a_no_op() {
    let mut c = coordinator(vec![row("60", "0.5", "BGM")]);
    let acts = c.handle_event(SemanticEvent::PadTouch(0));
    assert_eq!(acts, vec![]);
    assert_eq!(c.active_background, None);
}

#[test]
fn unknown_cue_ids_are_ignored() {
    let mut c = coordinator(vec![row("60", "0.5", "BGM")]);
    let acts = c.handle_event(SemanticEvent::CueDown(99));
    assert_eq!(acts, vec![]);
    let acts = c.handle_event(SemanticEvent::CueUp(99));
    assert_eq!(acts, vec![]);
    assert_eq!(c.active_background, None);
}

#[test]
fn raw_midi_messages_drive_the_coordinator() {
    let mut c = coordinator(vec![row("60", "0.5", "BGM")]);
    let e = decode_midi(144, 60, 100).unwrap();
    let acts = c.handle_event(e);
    assert_eq!(acts, vec![AudioAction::Start { id: 60, volume: 50 }]);
    let e = decode_midi(224, 0, 0).unwrap();
    let acts = c.handle_event(e);
    assert_eq!(acts, vec![AudioAction::Stop { id: 60 }]);
}

#[test]
fn coordinator_takes_classes_and_volumes_from_the_registry() {
    let reg = CueRegistry::from_rows(&vec![
        row("60", "0.5", "BGM"),
        row("62", "0.03", "LongSE"),
    ])
    .unwrap();
    let c = PlaybackCoordinator::new(&reg);
    assert_eq!(c.players.len(), 2);
    assert_eq!(c.players[0].id, 60);
    assert_eq!(c.players[0].bgm_type, BGMType::BGM);
    assert_eq!(c.players[0].volume, 50);
    assert!(!c.players[0].live);
    // a nominal volume below the floor is pulled up to the floor
    assert_eq!(c.players[1].volume, 7);
}
