//! The behavioural laws of the playback core, each proved once and for all
//! from the spec-level transition functions that the executable methods are
//! proved to follow exactly.

use vstd::prelude::*;

use crate::coordinator::{
    coord_wf, find_player, lemma_find_player, lemma_step_preserves_wf, step, step_actions,
    CoordModel,
};
use crate::decoder::SemanticEvent;
use crate::player::{
    live_handle, play_actions, player_play, player_stop, stop_actions, vol_down, vol_up,
    AudioAction, BGMType, PlayerModel, VOLUME_CEIL, VOLUME_FLOOR, VOLUME_STEP,
};

verus! {

/// The state after a whole sequence of events, first event first.
pub open spec fn run_events(m: CoordModel, es: Seq<SemanticEvent>) -> CoordModel
    decreases es.len(),
{
    if es.len() == 0 {
        m
    } else {
        run_events(step(m, es[0]), es.drop_first())
    }
}

/// The invariant survives any sequence of events.
pub proof fn lemma_run_events_preserve_wf(m: CoordModel, es: Seq<SemanticEvent>)
    requires
        coord_wf(m),
    ensures
        coord_wf(run_events(m, es)),
    decreases es.len(),
{
    if es.len() > 0 {
        lemma_step_preserves_wf(m, es[0]);
        lemma_run_events_preserve_wf(step(m, es[0]), es.drop_first());
    }
}

/// In any well-formed state, at most one background player is live: the
/// background slot is the sole arbiter of which background cue plays.
pub proof fn lemma_at_most_one_background(m: CoordModel)
    requires
        coord_wf(m),
    ensures
        forall|i: int, j: int|
            0 <= i < m.players.len() && 0 <= j < m.players.len() && (#[trigger] m.players[i]).bgm_type
                == BGMType::BGM && m.players[i].live && (#[trigger] m.players[j]).bgm_type
                == BGMType::BGM && m.players[j].live ==> i == j,
{
    assert forall|i: int, j: int|
        0 <= i < m.players.len() && 0 <= j < m.players.len() && (#[trigger] m.players[i]).bgm_type
            == BGMType::BGM && m.players[i].live && (#[trigger] m.players[j]).bgm_type
            == BGMType::BGM && m.players[j].live implies i == j by {
        assert(m.active_background == Option::Some(m.players[i].id));
        assert(m.active_background == Option::Some(m.players[j].id));
    }
}

/// A step never changes the roster: each index keeps its cue id and class.
pub proof fn lemma_step_keeps_roster(m: CoordModel, e: SemanticEvent)
    ensures
        step(m, e).players.len() == m.players.len(),
        forall|j: int|
            0 <= j < m.players.len() ==> (#[trigger] step(m, e).players[j]).id == m.players[j].id
                && step(m, e).players[j].bgm_type == m.players[j].bgm_type,
{
    let m2 = step(m, e);
    match e {
        SemanticEvent::CueDown(id) => {
            lemma_find_player(m.players, id);
        },
        SemanticEvent::CueUp(id) => {
            lemma_find_player(m.players, id);
        },
        SemanticEvent::KnobTurn(direction, value) => {
            match m.active_background {
                Option::Some(aid) => {
                    lemma_find_player(m.players, aid);
                },
                Option::None => {},
            }
        },
        SemanticEvent::PadTouch(position) => {
            match m.active_background {
                Option::Some(aid) => {
                    lemma_find_player(m.players, aid);
                },
                Option::None => {},
            }
        },
    }
    assert forall|j: int| 0 <= j < m.players.len() implies (#[trigger] m2.players[j]).id
        == m.players[j].id && m2.players[j].bgm_type == m.players[j].bgm_type by {}
}

/// Two rosters with the same ids index-by-index agree on every lookup.
pub proof fn lemma_find_player_same_ids(a: Seq<PlayerModel>, b: Seq<PlayerModel>, id: u8)
    requires
        a.len() == b.len(),
        forall|j: int| 0 <= j < a.len() ==> (#[trigger] a[j]).id == b[j].id,
    ensures
        find_player(a, id) == find_player(b, id),
    decreases a.len(),
{
    if a.len() > 0 {
        assert(a[0].id == b[0].id);
        if a[0].id != id {
            assert forall|j: int| 0 <= j < a.drop_first().len() implies (#[trigger] a.drop_first()[j]).id
                == b.drop_first()[j].id by {
                assert(a.drop_first()[j] == a[j + 1]);
                assert(b.drop_first()[j] == b[j + 1]);
            }
            lemma_find_player_same_ids(a.drop_first(), b.drop_first(), id);
        }
    }
}

/// Whether `e` presses the pad of a cue registered in `m` as a background
/// cue.
pub open spec fn background_cue_down(m: CoordModel, e: SemanticEvent) -> bool {
    match e {
        SemanticEvent::CueDown(id) => match find_player(m.players, id) {
            Option::Some(i) => m.players[i].bgm_type == BGMType::BGM,
            Option::None => false,
        },
        _ => false,
    }
}

/// The id a `CueDown` event carries.
pub open spec fn cue_down_id(e: SemanticEvent) -> u8 {
    match e {
        SemanticEvent::CueDown(id) => id,
        _ => 0,
    }
}

/// Being a background cue-down is not disturbed by any step: the roster
/// never changes.
pub proof fn lemma_background_cue_down_stable(m: CoordModel, e0: SemanticEvent, e: SemanticEvent)
    requires
        background_cue_down(m, e),
    ensures
        background_cue_down(step(m, e0), e),
{
    lemma_step_keeps_roster(m, e0);
    match e {
        SemanticEvent::CueDown(id) => {
            lemma_find_player(m.players, id);
            lemma_find_player_same_ids(step(m, e0).players, m.players, id);
        },
        _ => {},
    }
}

/// While the background slot is taken, pressing background cue pads changes
/// nothing at all: the running track is never interrupted by another
/// background cue.
pub proof fn lemma_background_stays(m: CoordModel, es: Seq<SemanticEvent>)
    requires
        coord_wf(m),
        m.active_background is Some,
        forall|k: int| 0 <= k < es.len() ==> background_cue_down(m, #[trigger] es[k]),
    ensures
        run_events(m, es) == m,
    decreases es.len(),
{
    if es.len() > 0 {
        match es[0] {
            SemanticEvent::CueDown(id) => {
                lemma_find_player(m.players, id);
                assert(step(m, es[0]) == m);
            },
            _ => {
                assert(false);
            },
        }
        assert forall|k: int| 0 <= k < es.drop_first().len() implies background_cue_down(
            m,
            #[trigger] es.drop_first()[k],
        ) by {
            assert(es.drop_first()[k] == es[k + 1]);
        }
        lemma_background_stays(m, es.drop_first());
    }
}

/// First background cue wins: starting from a free background slot, over
/// any sequence of background cue-down events the cue of the first event is
/// the one that ends up (and stays) in the slot; every later background
/// cue-down leaves the state untouched.
pub proof fn lemma_first_background_wins(m: CoordModel, es: Seq<SemanticEvent>)
    requires
        coord_wf(m),
        m.active_background is None,
        es.len() > 0,
        forall|k: int| 0 <= k < es.len() ==> background_cue_down(m, #[trigger] es[k]),
    ensures
        run_events(m, es).active_background == Option::Some(cue_down_id(es[0])),
        run_events(m, es) == step(m, es[0]),
{
    let e0 = es[0];
    let m1 = step(m, e0);
    match e0 {
        SemanticEvent::CueDown(id0) => {
            lemma_find_player(m.players, id0);
            assert(m1.active_background == Option::Some(id0));
        },
        _ => {
            assert(false);
        },
    }
    lemma_step_preserves_wf(m, e0);
    assert forall|k: int| 0 <= k < es.drop_first().len() implies background_cue_down(
        m1,
        #[trigger] es.drop_first()[k],
    ) by {
        assert(es.drop_first()[k] == es[k + 1]);
        lemma_background_cue_down_stable(m, e0, es[k + 1]);
    }
    lemma_background_stays(m1, es.drop_first());
}

/// The centered pad touch always clears the background slot and stops
/// exactly the previously active player, leaving every other player — and
/// so every one-shot or held effect still sounding — untouched.
pub proof fn lemma_pad_touch_stops_active(m: CoordModel)
    requires
        coord_wf(m),
        m.active_background is Some,
    ensures
        ({
            let id = m.active_background->Some_0;
            let i = find_player(m.players, id)->Some_0;
            let m2 = step(m, SemanticEvent::PadTouch(0));
            &&& find_player(m.players, id) is Some
            &&& m2.active_background is None
            &&& m2.players == m.players.update(i, player_stop(m.players[i]))
            &&& (forall|j: int|
                0 <= j < m.players.len() && j != i ==> #[trigger] m2.players[j] == m.players[j])
            &&& step_actions(m, SemanticEvent::PadTouch(0)) == seq![
                AudioAction::Stop { id },
            ]
        }),
{
    let id = m.active_background->Some_0;
    lemma_find_player(m.players, id);
    let i = find_player(m.players, id)->Some_0;
    assert(m.players[i].live);
    assert(m.players[i].id == id);
    assert(stop_actions(m.players[i]) =~= seq![AudioAction::Stop { id }]);
}

/// A key release on a one-shot or background cue never stops playback.
pub proof fn lemma_cue_up_ignores_short_and_bgm(m: CoordModel, id: u8)
    requires
        match find_player(m.players, id) {
            Option::Some(i) => m.players[i].bgm_type != BGMType::LongSE,
            Option::None => true,
        },
    ensures
        step(m, SemanticEvent::CueUp(id)) == m,
        step_actions(m, SemanticEvent::CueUp(id)) == Seq::<AudioAction>::empty(),
{
}

/// A key release on a held cue always stops its player if it was live, and
/// does nothing observable otherwise.
pub proof fn lemma_cue_up_stops_held(m: CoordModel, id: u8)
    requires
        find_player(m.players, id) is Some,
        m.players[find_player(m.players, id)->Some_0].bgm_type == BGMType::LongSE,
    ensures
        ({
            let i = find_player(m.players, id)->Some_0;
            let m2 = step(m, SemanticEvent::CueUp(id));
            &&& !m2.players[i].live
            &&& m2.players == m.players.update(i, player_stop(m.players[i]))
            &&& m2.active_background == m.active_background
            &&& (m.players[i].live ==> step_actions(m, SemanticEvent::CueUp(id)) == seq![
                AudioAction::Stop { id },
            ])
            &&& (!m.players[i].live ==> m2.players == m.players && step_actions(
                m,
                SemanticEvent::CueUp(id),
            ) == Seq::<AudioAction>::empty())
        }),
{
    lemma_find_player(m.players, id);
    let i = find_player(m.players, id)->Some_0;
    let p = m.players[i];
    assert(p.id == id);
    if p.live {
        assert(stop_actions(p) =~= seq![AudioAction::Stop { id }]);
    } else {
        assert(player_stop(p) == p);
        assert(m.players.update(i, p) =~= m.players);
    }
}

/// A knob turn whose value is not the full detent is a no-op, whatever its
/// direction.
pub proof fn lemma_knob_needs_detent(m: CoordModel, direction: u8, value: u8)
    requires
        value != 127,
    ensures
        step(m, SemanticEvent::KnobTurn(direction, value)) == m,
        step_actions(m, SemanticEvent::KnobTurn(direction, value)) == Seq::<AudioAction>::empty(),
{
}

/// The stored volume after `n` volume-up detents.
pub open spec fn iter_vol_up(v: u32, n: nat) -> u32
    decreases n,
{
    if n == 0 {
        v
    } else {
        vol_up(iter_vol_up(v, (n - 1) as nat))
    }
}

/// The stored volume after `n` volume-down detents.
pub open spec fn iter_vol_down(v: u32, n: nat) -> u32
    decreases n,
{
    if n == 0 {
        v
    } else {
        vol_down(iter_vol_down(v, (n - 1) as nat))
    }
}

/// Volume-up detents move the volume up in exact steps, never past the
/// ceiling, and never out of the closed volume range.
pub proof fn lemma_vol_up_formula(v: u32, n: nat)
    requires
        VOLUME_FLOOR <= v <= VOLUME_CEIL,
    ensures
        VOLUME_FLOOR <= iter_vol_up(v, n) <= VOLUME_CEIL,
        iter_vol_up(v, n) == (if v + VOLUME_STEP * n <= VOLUME_CEIL {
            (v + VOLUME_STEP * n) as u32
        } else {
            VOLUME_CEIL
        }),
    decreases n,
{
    if n > 0 {
        lemma_vol_up_formula(v, (n - 1) as nat);
        assert(VOLUME_STEP * n == VOLUME_STEP * (n - 1) + VOLUME_STEP) by (nonlinear_arith);
    }
}

/// Volume-down detents move the volume down in exact steps, never past the
/// floor, and never out of the closed volume range.
pub proof fn lemma_vol_down_formula(v: u32, n: nat)
    requires
        VOLUME_FLOOR <= v <= VOLUME_CEIL,
    ensures
        VOLUME_FLOOR <= iter_vol_down(v, n) <= VOLUME_CEIL,
        iter_vol_down(v, n) == (if v - VOLUME_STEP * n >= VOLUME_FLOOR {
            (v - VOLUME_STEP * n) as u32
        } else {
            VOLUME_FLOOR
        }),
    decreases n,
{
    if n > 0 {
        lemma_vol_down_formula(v, (n - 1) as nat);
        assert(VOLUME_STEP * n == VOLUME_STEP * (n - 1) + VOLUME_STEP) by (nonlinear_arith);
    }
}

/// Repeated volume-up detents converge to the ceiling and stay there;
/// repeated volume-down detents converge to the floor and stay there.
pub proof fn lemma_volume_converges(v: u32, n: nat)
    requires
        VOLUME_FLOOR <= v <= VOLUME_CEIL,
        n >= 25,
    ensures
        iter_vol_up(v, n) == VOLUME_CEIL,
        iter_vol_down(v, n) == VOLUME_FLOOR,
{
    lemma_vol_up_formula(v, n);
    lemma_vol_down_formula(v, n);
    assert(VOLUME_STEP * n >= VOLUME_STEP * 25) by (nonlinear_arith)
        requires
            n >= 25,
    ;
}

/// Stopping twice is the same as stopping once: the second stop neither
/// changes the player nor issues any command.
pub proof fn lemma_stop_idempotent(p: PlayerModel)
    ensures
        player_stop(player_stop(p)) == player_stop(p),
        stop_actions(player_stop(p)) == Seq::<AudioAction>::empty(),
{
}

/// Restart law: starting a playing cue again leaves exactly one live
/// handle — the newest — and the commands release the old handle strictly
/// before the new one is acquired.
pub proof fn lemma_restart_single_handle(p: PlayerModel)
    ensures
        ({
            let p1 = player_play(p);
            let p2 = player_play(p1);
            &&& live_handle(p2) == Option::Some((p.handles + 2) as nat)
            &&& live_handle(p2) != Option::Some((p.handles + 1) as nat)
            &&& play_actions(p1) == seq![
                AudioAction::Stop { id: p.id },
                AudioAction::Start { id: p.id, volume: p.volume },
            ]
        }),
{
}

} // verus!
