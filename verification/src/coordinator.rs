//! The playback coordinator: the event-to-playback state machine.
//!
//! The coordinator owns one player per registered cue and the single "active
//! background track" slot. Each semantic event maps to a state transition
//! and a list of audio commands; the transition is given by the spec
//! function [`step`] and the commands by [`step_actions`], and
//! [`PlaybackCoordinator::handle_event`] is proved to follow both exactly.
//!
//! Background cues are mutually exclusive: a background cue starts only
//! while the slot is free (first wins), and only the dedicated stop gesture
//! clears the slot. Unknown cue ids are ignored, so a stray controller
//! message never interrupts a performance.

use vstd::prelude::*;

use crate::decoder::SemanticEvent;
use crate::player::{
    clamp_volume, play_actions, player_play, player_stop, player_vol_down, player_vol_up,
    stop_actions, vol_down_actions, vol_up_actions, AudioAction, BGMType, PlayerModel, SEPlayer,
    VOLUME_CEIL, VOLUME_FLOOR,
};
use crate::registry::{Cue, CueRegistry};

verus! {

/// Mathematical state of the coordinator: the players' states in registry
/// order and the id of the background cue occupying the slot, if any.
#[verifier::ext_equal]
pub struct CoordModel {
    pub players: Seq<PlayerModel>,
    pub active_background: Option<u8>,
}

/// Index of the first player for the given cue id, if any.
pub open spec fn find_player(ps: Seq<PlayerModel>, id: u8) -> Option<int>
    decreases ps.len(),
{
    if ps.len() == 0 {
        Option::None
    } else if ps[0].id == id {
        Option::Some(0)
    } else {
        match find_player(ps.drop_first(), id) {
            Option::Some(i) => Option::Some(i + 1),
            Option::None => Option::None,
        }
    }
}

/// What `find_player` returns: the first index holding the id, or nothing
/// when no index holds it.
pub proof fn lemma_find_player(ps: Seq<PlayerModel>, id: u8)
    ensures
        match find_player(ps, id) {
            Option::Some(i) => 0 <= i < ps.len() && ps[i].id == id && (forall|j: int|
                0 <= j < i ==> ps[j].id != id),
            Option::None => forall|j: int| 0 <= j < ps.len() ==> ps[j].id != id,
        },
    decreases ps.len(),
{
    if ps.len() > 0 && ps[0].id != id {
        lemma_find_player(ps.drop_first(), id);
        assert forall|j: int| 0 <= j < ps.len() && j > 0 implies ps[j]
            == ps.drop_first()[j - 1] by {}
    }
}

/// Updating a player in place does not change which index an id lives at,
/// as long as the updated player keeps its id.
pub proof fn lemma_find_player_update(ps: Seq<PlayerModel>, i: int, p: PlayerModel, id: u8)
    requires
        0 <= i < ps.len(),
        p.id == ps[i].id,
    ensures
        find_player(ps.update(i, p), id) == find_player(ps, id),
    decreases ps.len(),
{
    if ps.len() > 0 {
        if i == 0 {
            if ps[0].id != id {
                assert(ps.update(i, p).drop_first() =~= ps.drop_first());
            }
        } else {
            if ps[0].id != id {
                assert(ps.update(i, p).drop_first() =~= ps.drop_first().update(i - 1, p));
                lemma_find_player_update(ps.drop_first(), i - 1, p, id);
            }
        }
    }
}

/// The state after one semantic event, as the performer's rules demand:
///
/// - `CueDown` on a background cue starts it only while the background slot
///   is free and then occupies the slot; on any other cue it always starts
///   the player. Unknown ids do nothing.
/// - `CueUp` stops the player only for a held (`LongSE`) cue.
/// - `KnobTurn` is a detent only at value 127; it adjusts the volume of the
///   active background player, direction 1 up and 2 down.
/// - `PadTouch` at position 0 stops the active background player and frees
///   the slot.
pub open spec fn step(m: CoordModel, e: SemanticEvent) -> CoordModel {
    match e {
        SemanticEvent::CueDown(id) => match find_player(m.players, id) {
            Option::None => m,
            Option::Some(i) => {
                let p = m.players[i];
                if p.bgm_type == BGMType::BGM {
                    if m.active_background is None {
                        CoordModel {
                            players: m.players.update(i, player_play(p)),
                            active_background: Option::Some(id),
                        }
                    } else {
                        m
                    }
                } else {
                    CoordModel {
                        players: m.players.update(i, player_play(p)),
                        active_background: m.active_background,
                    }
                }
            },
        },
        SemanticEvent::CueUp(id) => match find_player(m.players, id) {
            Option::None => m,
            Option::Some(i) => {
                let p = m.players[i];
                if p.bgm_type == BGMType::LongSE {
                    CoordModel {
                        players: m.players.update(i, player_stop(p)),
                        active_background: m.active_background,
                    }
                } else {
                    m
                }
            },
        },
        SemanticEvent::KnobTurn(direction, value) => {
            if value != 127 {
                m
            } else {
                match m.active_background {
                    Option::None => m,
                    Option::Some(id) => match find_player(m.players, id) {
                        Option::None => m,
                        Option::Some(i) => {
                            let p = m.players[i];
                            if direction == 1 {
                                CoordModel {
                                    players: m.players.update(i, player_vol_up(p)),
                                    active_background: m.active_background,
                                }
                            } else if direction == 2 {
                                CoordModel {
                                    players: m.players.update(i, player_vol_down(p)),
                                    active_background: m.active_background,
                                }
                            } else {
                                m
                            }
                        },
                    },
                }
            }
        },
        SemanticEvent::PadTouch(position) => {
            if position != 0 {
                m
            } else {
                match m.active_background {
                    Option::None => m,
                    Option::Some(id) => match find_player(m.players, id) {
                        Option::None => CoordModel {
                            players: m.players,
                            active_background: Option::None,
                        },
                        Option::Some(i) => CoordModel {
                            players: m.players.update(i, player_stop(m.players[i])),
                            active_background: Option::None,
                        },
                    },
                }
            }
        },
    }
}

/// The audio commands one semantic event produces, matching [`step`].
pub open spec fn step_actions(m: CoordModel, e: SemanticEvent) -> Seq<AudioAction> {
    match e {
        SemanticEvent::CueDown(id) => match find_player(m.players, id) {
            Option::None => Seq::empty(),
            Option::Some(i) => {
                let p = m.players[i];
                if p.bgm_type == BGMType::BGM {
                    if m.active_background is None {
                        play_actions(p)
                    } else {
                        Seq::empty()
                    }
                } else {
                    play_actions(p)
                }
            },
        },
        SemanticEvent::CueUp(id) => match find_player(m.players, id) {
            Option::None => Seq::empty(),
            Option::Some(i) => {
                let p = m.players[i];
                if p.bgm_type == BGMType::LongSE {
                    stop_actions(p)
                } else {
                    Seq::empty()
                }
            },
        },
        SemanticEvent::KnobTurn(direction, value) => {
            if value != 127 {
                Seq::empty()
            } else {
                match m.active_background {
                    Option::None => Seq::empty(),
                    Option::Some(id) => match find_player(m.players, id) {
                        Option::None => Seq::empty(),
                        Option::Some(i) => {
                            let p = m.players[i];
                            if direction == 1 {
                                vol_up_actions(p)
                            } else if direction == 2 {
                                vol_down_actions(p)
                            } else {
                                Seq::empty()
                            }
                        },
                    },
                }
            }
        },
        SemanticEvent::PadTouch(position) => {
            if position != 0 {
                Seq::empty()
            } else {
                match m.active_background {
                    Option::None => Seq::empty(),
                    Option::Some(id) => match find_player(m.players, id) {
                        Option::None => Seq::empty(),
                        Option::Some(i) => stop_actions(m.players[i]),
                    },
                }
            }
        },
    }
}

/// Whether no two players serve the same cue id.
pub open spec fn player_ids_unique(ps: Seq<PlayerModel>) -> bool {
    forall|i: int, j: int|
        0 <= i < ps.len() && 0 <= j < ps.len() && i != j ==> ps[i].id != ps[j].id
}

/// Whether every stored volume lies inside the closed volume range.
pub open spec fn volumes_in_range(ps: Seq<PlayerModel>) -> bool {
    forall|i: int|
        0 <= i < ps.len() ==> VOLUME_FLOOR <= (#[trigger] ps[i]).volume <= VOLUME_CEIL
}

/// The coordinator's invariant.
///
/// Ids are unique, volumes stay in range, the background slot always names
/// a registered background cue whose player is live, and — the heart of the
/// mutual-exclusion policy — every live background player is the one the
/// slot names, so at most one background cue is ever audible.
pub open spec fn coord_wf(m: CoordModel) -> bool {
    &&& player_ids_unique(m.players)
    &&& volumes_in_range(m.players)
    &&& (match m.active_background {
        Option::Some(id) => match find_player(m.players, id) {
            Option::Some(i) => m.players[i].bgm_type == BGMType::BGM && m.players[i].live,
            Option::None => false,
        },
        Option::None => true,
    })
    &&& (forall|i: int|
        0 <= i < m.players.len() && (#[trigger] m.players[i]).bgm_type == BGMType::BGM
            && m.players[i].live ==> m.active_background == Option::Some(m.players[i].id))
}

/// Replacing a player by one with the same id keeps ids unique, keeps every
/// other player in place for lookups, and keeps volumes in range when the
/// new volume is.
pub proof fn lemma_update_keeps(ps: Seq<PlayerModel>, i: int, p: PlayerModel)
    requires
        0 <= i < ps.len(),
        p.id == ps[i].id,
        player_ids_unique(ps),
        volumes_in_range(ps),
        VOLUME_FLOOR <= p.volume <= VOLUME_CEIL,
    ensures
        player_ids_unique(ps.update(i, p)),
        volumes_in_range(ps.update(i, p)),
        forall|other: u8| #[trigger]
            find_player(ps.update(i, p), other) == find_player(ps, other),
{
    let ps2 = ps.update(i, p);
    assert forall|other: u8| #[trigger]
        find_player(ps2, other) == find_player(ps, other) by {
        lemma_find_player_update(ps, i, p, other);
    }
    assert forall|a: int| 0 <= a < ps2.len() implies (#[trigger] ps2[a]).id == ps[a].id
        && VOLUME_FLOOR <= ps2[a].volume <= VOLUME_CEIL by {
        if a != i {
            assert(ps2[a] == ps[a]);
        }
    }
}

/// One step preserves the invariant.
pub proof fn lemma_step_preserves_wf(m: CoordModel, e: SemanticEvent)
    requires
        coord_wf(m),
    ensures
        coord_wf(step(m, e)),
{
    let m2 = step(m, e);
    match e {
        SemanticEvent::CueDown(id) => {
            lemma_find_player(m.players, id);
            match find_player(m.players, id) {
                Option::None => {},
                Option::Some(i) => {
                    let p = m.players[i];
                    let p2 = player_play(p);
                    let ps2 = m.players.update(i, p2);
                    lemma_update_keeps(m.players, i, p2);
                    if p.bgm_type == BGMType::BGM && m.active_background is None {
                        assert(m2.players == ps2);
                        assert(find_player(ps2, id) == Option::Some(i));
                        assert(ps2[i].bgm_type == BGMType::BGM && ps2[i].live);
                        assert forall|j: int|
                            0 <= j < ps2.len() && (#[trigger] ps2[j]).bgm_type == BGMType::BGM
                                && ps2[j].live implies m2.active_background == Option::Some(
                            ps2[j].id,
                        ) by {
                            if j != i {
                                assert(ps2[j] == m.players[j]);
                            }
                        }
                    } else if p.bgm_type != BGMType::BGM {
                        assert(m2.players == ps2);
                        assert forall|j: int|
                            0 <= j < ps2.len() && (#[trigger] ps2[j]).bgm_type == BGMType::BGM
                                && ps2[j].live implies m2.active_background == Option::Some(
                            ps2[j].id,
                        ) by {
                            if j != i {
                                assert(ps2[j] == m.players[j]);
                            }
                        }
                        match m.active_background {
                            Option::Some(aid) => {
                                lemma_find_player(m.players, aid);
                                let k = find_player(m.players, aid)->Some_0;
                                assert(m.players[k].bgm_type == BGMType::BGM);
                                assert(ps2[k] == m.players[k]);
                            },
                            Option::None => {},
                        }
                    }
                },
            }
        },
        SemanticEvent::CueUp(id) => {
            lemma_find_player(m.players, id);
            match find_player(m.players, id) {
                Option::None => {},
                Option::Some(i) => {
                    let p = m.players[i];
                    if p.bgm_type == BGMType::LongSE {
                        let p2 = player_stop(p);
                        let ps2 = m.players.update(i, p2);
                        lemma_update_keeps(m.players, i, p2);
                        assert(m2.players == ps2);
                        assert forall|j: int|
                            0 <= j < ps2.len() && (#[trigger] ps2[j]).bgm_type == BGMType::BGM
                                && ps2[j].live implies m2.active_background == Option::Some(
                            ps2[j].id,
                        ) by {
                            if j != i {
                                assert(ps2[j] == m.players[j]);
                            }
                        }
                        match m.active_background {
                            Option::Some(aid) => {
                                lemma_find_player(m.players, aid);
                                let k = find_player(m.players, aid)->Some_0;
                                assert(m.players[k].bgm_type == BGMType::BGM);
                                assert(ps2[k] == m.players[k]);
                            },
                            Option::None => {},
                        }
                    }
                },
            }
        },
        SemanticEvent::KnobTurn(direction, value) => {
            if value == 127 {
                match m.active_background {
                    Option::None => {},
                    Option::Some(id) => {
                        lemma_find_player(m.players, id);
                        match find_player(m.players, id) {
                            Option::None => {},
                            Option::Some(i) => {
                                let p = m.players[i];
                                if direction == 1 || direction == 2 {
                                    let p2 = if direction == 1 {
                                        player_vol_up(p)
                                    } else {
                                        player_vol_down(p)
                                    };
                                    let ps2 = m.players.update(i, p2);
                                    assert(VOLUME_FLOOR <= p.volume <= VOLUME_CEIL);
                                    lemma_update_keeps(m.players, i, p2);
                                    assert(m2.players == ps2);
                                    assert(find_player(ps2, id) == Option::Some(i));
                                    assert(ps2[i].bgm_type == BGMType::BGM && ps2[i].live);
                                    assert forall|j: int|
                                        0 <= j < ps2.len() && (#[trigger] ps2[j]).bgm_type
                                            == BGMType::BGM
                                            && ps2[j].live implies m2.active_background
                                        == Option::Some(ps2[j].id) by {
                                        if j != i {
                                            assert(ps2[j] == m.players[j]);
                                        } else {
                                            assert(ps2[i].id == p.id);
                                        }
                                    }
                                }
                            },
                        }
                    },
                }
            }
        },
        SemanticEvent::PadTouch(position) => {
            if position == 0 {
                match m.active_background {
                    Option::None => {},
                    Option::Some(id) => {
                        lemma_find_player(m.players, id);
                        match find_player(m.players, id) {
                            Option::None => {},
                            Option::Some(i) => {
                                let p = m.players[i];
                                let p2 = player_stop(p);
                                let ps2 = m.players.update(i, p2);
                                lemma_update_keeps(m.players, i, p2);
                                assert(m2.players == ps2);
                                assert forall|j: int|
                                    0 <= j < ps2.len() && (#[trigger] ps2[j]).bgm_type
                                        == BGMType::BGM
                                        && ps2[j].live implies m2.active_background == Option::Some(
                                    ps2[j].id,
                                ) by {
                                    if j != i {
                                        assert(ps2[j] == m.players[j]);
                                        assert(m.active_background == Option::Some(
                                            m.players[j].id,
                                        ));
                                        assert(m.players[j].id == id);
                                        assert(m.players[i].id == id);
                                    }
                                }
                            },
                        }
                    },
                }
            }
        },
    }
}

/// The coordinator: one player per registered cue, and the background slot.
pub struct PlaybackCoordinator {
    /// One player per cue, in registry order; ids are unique.
    pub players: Vec<SEPlayer>,
    /// The id of the background cue currently occupying the slot.
    pub active_background: Option<u8>,
}

impl View for PlaybackCoordinator {
    type V = CoordModel;

    open spec fn view(&self) -> CoordModel {
        CoordModel {
            players: self.players@.map_values(|p: SEPlayer| p@),
            active_background: self.active_background,
        }
    }
}

/// Index of the first player of `players` with the given cue id, if any.
fn find_player_index(players: &Vec<SEPlayer>, id: u8) -> (r: Option<usize>)
    ensures
        match r {
            Option::Some(i) => find_player(players@.map_values(|p: SEPlayer| p@), id)
                == Option::Some(i as int),
            Option::None => find_player(players@.map_values(|p: SEPlayer| p@), id) is None,
        },
{
    let ghost mapped = players@.map_values(|p: SEPlayer| p@);
    let mut i: usize = 0;
    while i < players.len()
        invariant
            i <= players@.len(),
            mapped == players@.map_values(|p: SEPlayer| p@),
            forall|j: int| 0 <= j < i ==> (#[trigger] mapped[j]).id != id,
        decreases players@.len() - i,
    {
        if players[i].id == id {
            proof {
                lemma_find_player(mapped, id);
                assert(mapped[i as int] == players@[i as int]@);
                let fp = find_player(mapped, id);
                if fp is Some {
                    let k = fp->Some_0;
                    if k < i {
                        assert(mapped[k].id != id);
                    }
                    if k > i {
                        assert(mapped[i as int].id != id);
                    }
                } else {
                    assert(mapped[i as int].id != id);
                }
            }
            return Some(i);
        }
        assert(mapped[i as int] == players@[i as int]@);
        i += 1;
    }
    proof {
        lemma_find_player(mapped, id);
    }
    None
}

impl PlaybackCoordinator {
    /// The coordinator's invariant, stated of its mathematical view.
    pub open spec fn wf(&self) -> bool {
        coord_wf(self@)
    }

    /// Builds the coordinator from a loaded registry: one idle player per
    /// cue, each at its nominal volume pulled into the volume range, and a
    /// free background slot.
    pub fn new(registry: &CueRegistry) -> (c: PlaybackCoordinator)
        requires
            registry.wf(),
        ensures
            c.wf(),
            c@.active_background is None,
            c@.players.len() == registry@.len(),
            forall|i: int|
                0 <= i < registry@.len() ==> (#[trigger] c@.players[i]) == (PlayerModel {
                    id: registry@[i].id,
                    bgm_type: registry@[i].class,
                    volume: clamp_volume(registry@[i].volume),
                    live: false,
                    handles: 0nat,
                }),
    {
        let ghost cues = registry@;
        let mut players: Vec<SEPlayer> = Vec::new();
        let mut i: usize = 0;
        while i < registry.len()
            invariant
                i <= cues.len(),
                cues == registry@,
                registry.wf(),
                players@.len() == i,
                forall|j: int|
                    0 <= j < i ==> (#[trigger] players@[j]@) == (PlayerModel {
                        id: cues[j].id,
                        bgm_type: cues[j].class,
                        volume: clamp_volume(cues[j].volume),
                        live: false,
                        handles: 0nat,
                    }),
            decreases cues.len() - i,
        {
            let cue: &Cue = &registry.cues[i];
            proof {
                assert(cues[i as int] == registry.cues@[i as int]@);
            }
            let title = cue.title.as_str().to_owned();
            let source = cue.source.as_str().to_owned();
            let p = SEPlayer::new(cue.id, title, source, cue.volume, cue.class);
            players.push(p);
            i += 1;
        }
        let c = PlaybackCoordinator { players, active_background: None };
        proof {
            let ps = c@.players;
            assert forall|j: int| 0 <= j < ps.len() implies (#[trigger] ps[j]) == (PlayerModel {
                id: cues[j].id,
                bgm_type: cues[j].class,
                volume: clamp_volume(cues[j].volume),
                live: false,
                handles: 0nat,
            }) by {
                assert(ps[j] == players@[j]@);
            }
            assert(player_ids_unique(ps));
            assert(volumes_in_range(ps));
        }
        c
    }

    /// Handles one semantic event: the state moves exactly as [`step`] says
    /// and the returned commands are exactly [`step_actions`], so every
    /// behaviour of the coordinator is fixed by those two functions. The
    /// invariant is preserved.
    pub fn handle_event(&mut self, e: SemanticEvent) -> (acts: Vec<AudioAction>)
        requires
            old(self).wf(),
        ensures
            final(self)@ == step(old(self)@, e),
            acts@ == step_actions(old(self)@, e),
            final(self).wf(),
    {
        proof {
            lemma_step_preserves_wf(old(self)@, e);
        }
        let ghost m0 = self@;
        match e {
            SemanticEvent::CueDown(id) => {
                match find_player_index(&self.players, id) {
                    None => {
                        let acts: Vec<AudioAction> = Vec::new();
                        assert(self@ =~= step(m0, e));
                        acts
                    },
                    Some(i) => {
                        proof {
                            lemma_find_player(m0.players, id);
                        }
                        let is_bgm = match self.players[i].bgm_type {
                            BGMType::BGM => true,
                            _ => false,
                        };
                        if is_bgm {
                            if self.active_background.is_none() {
                                let target = &mut self.players[i];
                                let acts = target.play();
                                self.active_background = Some(id);
                                proof {
                                    assert(self@.players =~= m0.players.update(
                                        i as int,
                                        player_play(m0.players[i as int]),
                                    ));
                                    assert(self@ =~= step(m0, e));
                                }
                                acts
                            } else {
                                let acts: Vec<AudioAction> = Vec::new();
                                assert(self@ =~= step(m0, e));
                                acts
                            }
                        } else {
                            let target = &mut self.players[i];
                            let acts = target.play();
                            proof {
                                assert(self@.players =~= m0.players.update(
                                    i as int,
                                    player_play(m0.players[i as int]),
                                ));
                                assert(self@ =~= step(m0, e));
                            }
                            acts
                        }
                    },
                }
            },
            SemanticEvent::CueUp(id) => {
                match find_player_index(&self.players, id) {
                    None => {
                        let acts: Vec<AudioAction> = Vec::new();
                        assert(self@ =~= step(m0, e));
                        acts
                    },
                    Some(i) => {
                        proof {
                            lemma_find_player(m0.players, id);
                        }
                        let is_held = match self.players[i].bgm_type {
                            BGMType::LongSE => true,
                            _ => false,
                        };
                        if is_held {
                            let target = &mut self.players[i];
                            let acts = target.stop();
                            proof {
                                assert(self@.players =~= m0.players.update(
                                    i as int,
                                    player_stop(m0.players[i as int]),
                                ));
                                assert(self@ =~= step(m0, e));
                            }
                            acts
                        } else {
                            let acts: Vec<AudioAction> = Vec::new();
                            assert(self@ =~= step(m0, e));
                            acts
                        }
                    },
                }
            },
            SemanticEvent::KnobTurn(direction, value) => {
                if value != 127 {
                    let acts: Vec<AudioAction> = Vec::new();
                    assert(self@ =~= step(m0, e));
                    acts
                } else {
                    match self.active_background {
                        None => {
                            let acts: Vec<AudioAction> = Vec::new();
                            assert(self@ =~= step(m0, e));
                            acts
                        },
                        Some(id) => {
                            match find_player_index(&self.players, id) {
                                None => {
                                    let acts: Vec<AudioAction> = Vec::new();
                                    assert(self@ =~= step(m0, e));
                                    acts
                                },
                                Some(i) => {
                                    proof {
                                        lemma_find_player(m0.players, id);
                                    }
                                    if direction == 1 {
                                        let target = &mut self.players[i];
                                        let acts = target.volume_up();
                                        proof {
                                            assert(self@.players =~= m0.players.update(
                                                i as int,
                                                player_vol_up(m0.players[i as int]),
                                            ));
                                            assert(self@ =~= step(m0, e));
                                        }
                                        acts
                                    } else if direction == 2 {
                                        let target = &mut self.players[i];
                                        let acts = target.volume_down();
                                        proof {
                                            assert(self@.players =~= m0.players.update(
                                                i as int,
                                                player_vol_down(m0.players[i as int]),
                                            ));
                                            assert(self@ =~= step(m0, e));
                                        }
                                        acts
                                    } else {
                                        let acts: Vec<AudioAction> = Vec::new();
                                        assert(self@ =~= step(m0, e));
                                        acts
                                    }
                                },
                            }
                        },
                    }
                }
            },
            SemanticEvent::PadTouch(position) => {
                if position != 0 {
                    let acts: Vec<AudioAction> = Vec::new();
                    assert(self@ =~= step(m0, e));
                    acts
                } else {
                    match self.active_background {
                        None => {
                            let acts: Vec<AudioAction> = Vec::new();
                            assert(self@ =~= step(m0, e));
                            acts
                        },
                        Some(id) => {
                            match find_player_index(&self.players, id) {
                                None => {
                                    self.active_background = None;
                                    let acts: Vec<AudioAction> = Vec::new();
                                    assert(self@ =~= step(m0, e));
                                    acts
                                },
                                Some(i) => {
                                    proof {
                                        lemma_find_player(m0.players, id);
                                    }
                                    let target = &mut self.players[i];
                                    let acts = target.stop();
                                    self.active_background = None;
                                    proof {
                                        assert(self@.players =~= m0.players.update(
                                            i as int,
                                            player_stop(m0.players[i as int]),
                                        ));
                                        assert(self@ =~= step(m0, e));
                                    }
                                    acts
                                },
                            }
                        },
                    }
                }
            },
        }
    }
}

} // verus!
