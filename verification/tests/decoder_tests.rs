use se_button::decoder::{decode_midi, SemanticEvent};

#[test]
fn note_on_is_cue_down() {
    assert_eq!(decode_midi(144, 60, 100), Some(SemanticEvent::CueDown(60)));
}

#[test]
fn note_off_is_cue_up() {
    assert_eq!(decode_midi(128, 61, 0), Some(SemanticEvent::CueUp(61)));
}

#[test]
fn control_change_is_knob_turn() {
    assert_eq!(decode_midi(176, 1, 127), Some(SemanticEvent::KnobTurn(1, 127)));
    assert_eq!(decode_midi(176, 2, 50), Some(SemanticEvent::KnobTurn(2, 50)));
}

#[test]
fn pitch_bend_is_pad_touch_with_combined_position() {
    assert_eq!(decode_midi(224, 0, 0), Some(SemanticEvent::PadTouch(0)));
    assert_eq!(decode_midi(224, 1, 5), Some(SemanticEvent::PadTouch(133)));
    assert_eq!(decode_midi(224, 127, 127), Some(SemanticEvent::PadTouch(16383)));
}

#[test]
fn unrecognized_status_bytes_yield_no_event() {
    assert_eq!(decode_midi(0, 60, 100), None);
    assert_eq!(decode_midi(145, 60, 100), None);
    assert_eq!(decode_midi(250, 0, 0), None);
}
