use se_button::player::{AudioAction, BGMType, SEPlayer};

fn new_player(volume: u32) -> SEPlayer {
    SEPlayer::new(60, "Opening".to_string(), "a.mp3".to_string(), volume, BGMType::BGM)
}

#[test]
fn new_player_is_idle_and_keeps_its_fields() {
    let p = new_player(50);
    assert_eq!(p.id, 60);
    assert_eq!(p.title, "Opening");
    assert_eq!(p.sound_path, "a.mp3");
    assert_eq!(p.bgm_type, BGMType::BGM);
    assert_eq!(p.volume, 50);
    assert!(!p.live);
}

#[test]
fn new_player_clamps_nominal_volume_into_range() {
    assert_eq!(new_player(3).volume, 7);
    assert_eq!(new_player(7).volume, 7);
    assert_eq!(new_player(100).volume, 100);
    assert_eq!(new_player(200).volume, 130);
}

#[test]
fn play_starts_at_the_stored_volume() {
    let mut p = new_player(50);
    let acts = p.play();
    assert_eq!(acts, vec![AudioAction::Start { id: 60, volume: 50 }]);
    assert!(p.live);
}

#[test]
fn replaying_releases_the_old_handle_before_acquiring_the_new_one() {
    let mut p = new_player(50);
    p.play();
    let acts = p.play();
    assert_eq!(
        acts,
        vec![AudioAction::Stop { id: 60 }, AudioAction::Start { id: 60, volume: 50 }]
    );
    assert!(p.live);
}

#[test]
fn stop_is_idempotent() {
    let mut p = new_player(50);
    p.play();
    let acts = p.stop();
    assert_eq!(acts, vec![AudioAction::Stop { id: 60 }]);
    assert!(!p.live);
    let acts = p.stop();
    assert_eq!(acts, vec![]);
    assert!(!p.live);
}

#[test]
fn volume_steps_apply_to_a_live_handle() {
    let mut p = new_player(50);
    p.play();
    let acts = p.volume_up();
    assert_eq!(acts, vec![AudioAction::SetVolume { id: 60, volume: 55 }]);
    let acts = p.volume_down();
    assert_eq!(acts, vec![AudioAction::SetVolume { id: 60, volume: 50 }]);
}

#[test]
fn volume_steps_without_a_live_handle_change_only_the_stored_volume() {
    let mut p = new_player(50);
    let acts = p.volume_up();
    assert_eq!(acts, vec![]);
    assert_eq!(p.volume, 55);
}

#[test]
fn repeated_volume_up_converges_to_the_ceiling() {
    let mut p = new_player(50);
    for _ in 0..30 {
        p.volume_up();
    }
    assert_eq!(p.volume, 130);
    p.volume_up();
    assert_eq!(p.volume, 130);
}

#[test]
fn repeated_volume_down_converges_to_the_floor() {
    let mut p = new_player(50);
    for _ in 0..30 {
        p.volume_down();
    }
    assert_eq!(p.volume, 7);
    p.volume_down();
    assert_eq!(p.volume, 7);
}

#[test]
fn volume_clamps_exactly_at_the_bounds() {
    let mut p = new_player(100);
    for _ in 0..5 {
        p.volume_up();
    }
    assert_eq!(p.volume, 125);
    p.volume_up();
    assert_eq!(p.volume, 130);
    let mut q = new_player(10);
    q.volume_down();
    assert_eq!(q.volume, 7);
}
