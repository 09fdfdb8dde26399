//! Per-cue playback state: the cue's class, its stored volume and the live
//! playback handle, together with the commands a player issues to the audio
//! backend.
//!
//! Volumes are kept in hundredths of the audio backend's gain factor, so the
//! adjustment step of five hundredths (0.05) and the bounds of the volume
//! range are exact integers.

use vstd::prelude::*;

verus! {

/// How a cue reacts to the pad being pressed and released.
#[derive(Clone, Copy, PartialEq, Eq, Structural, Debug)]
pub enum BGMType {
    /// A background track: loops until it is explicitly stopped or replaced;
    /// at most one of these is audible at a time.
    BGM,
    /// A short one-shot effect: fires on key-down and plays to completion.
    ShortSE,
    /// A held effect: plays while the key is down, stops on key-up.
    LongSE,
}

/// One command for the audio backend. The library never touches the audio
/// device itself; it returns these and the embedding program performs them in
/// order.
#[derive(Clone, Copy, PartialEq, Eq, Structural, Debug)]
pub enum AudioAction {
    /// Open a fresh playback stream for the cue's source at the given volume
    /// (in hundredths).
    Start { id: u8, volume: u32 },
    /// Halt and release the cue's live stream.
    Stop { id: u8 },
    /// Set the gain of the cue's live stream to the given volume (in
    /// hundredths).
    SetVolume { id: u8, volume: u32 },
}

/// Lowest stored volume, in hundredths: the floor deliberately avoids exact
/// silence.
pub const VOLUME_FLOOR: u32 = 7;

/// Highest stored volume, in hundredths: a modest boost above unity gain is
/// allowed.
pub const VOLUME_CEIL: u32 = 130;

/// Volume change per knob detent, in hundredths.
pub const VOLUME_STEP: u32 = 5;

/// Pulls a volume into the closed range `[VOLUME_FLOOR, VOLUME_CEIL]`.
pub open spec fn clamp_volume(v: u32) -> u32 {
    if v < VOLUME_FLOOR {
        VOLUME_FLOOR
    } else if v > VOLUME_CEIL {
        VOLUME_CEIL
    } else {
        v
    }
}

/// One volume-up detent: one step towards the ceiling, never past it.
pub open spec fn vol_up(v: u32) -> u32 {
    if v + VOLUME_STEP <= VOLUME_CEIL {
        (v + VOLUME_STEP) as u32
    } else {
        VOLUME_CEIL
    }
}

/// One volume-down detent: one step towards the floor, never past it.
pub open spec fn vol_down(v: u32) -> u32 {
    if v >= VOLUME_FLOOR + VOLUME_STEP {
        (v - VOLUME_STEP) as u32
    } else {
        VOLUME_FLOOR
    }
}

/// Mathematical state of one player.
///
/// Playback handles ever acquired by this player are numbered `1, 2, ...,
/// handles` in order of acquisition; when `live` holds, handle `handles` (the
/// most recent) is the one handle still producing sound, and every earlier
/// handle has been released.
pub struct PlayerModel {
    pub id: u8,
    pub bgm_type: BGMType,
    pub volume: u32,
    pub live: bool,
    pub handles: nat,
}

/// The number of the handle that is currently audible, if any.
pub open spec fn live_handle(p: PlayerModel) -> Option<nat> {
    if p.live {
        Option::Some(p.handles)
    } else {
        Option::None
    }
}

/// State after `play`: a fresh handle is acquired (replacing any live one)
/// and the stored volume is kept.
pub open spec fn player_play(p: PlayerModel) -> PlayerModel {
    PlayerModel { id: p.id, bgm_type: p.bgm_type, volume: p.volume, live: true, handles: p.handles + 1 }
}

/// State after `stop`: no handle is live; everything else is kept.
pub open spec fn player_stop(p: PlayerModel) -> PlayerModel {
    PlayerModel { id: p.id, bgm_type: p.bgm_type, volume: p.volume, live: false, handles: p.handles }
}

/// State after one volume-up detent.
pub open spec fn player_vol_up(p: PlayerModel) -> PlayerModel {
    PlayerModel { id: p.id, bgm_type: p.bgm_type, volume: vol_up(p.volume), live: p.live, handles: p.handles }
}

/// State after one volume-down detent.
pub open spec fn player_vol_down(p: PlayerModel) -> PlayerModel {
    PlayerModel { id: p.id, bgm_type: p.bgm_type, volume: vol_down(p.volume), live: p.live, handles: p.handles }
}

/// Commands `play` issues: the old handle is released before the new one is
/// acquired, so no two handles of one cue ever sound together.
pub open spec fn play_actions(p: PlayerModel) -> Seq<AudioAction> {
    if p.live {
        seq![
            AudioAction::Stop { id: p.id },
            AudioAction::Start { id: p.id, volume: p.volume },
        ]
    } else {
        seq![AudioAction::Start { id: p.id, volume: p.volume }]
    }
}

/// Commands `stop` issues: release the live handle if there is one.
pub open spec fn stop_actions(p: PlayerModel) -> Seq<AudioAction> {
    if p.live {
        seq![AudioAction::Stop { id: p.id }]
    } else {
        Seq::empty()
    }
}

/// Commands a volume-up detent issues: the new gain is applied to the live
/// handle, if there is one.
pub open spec fn vol_up_actions(p: PlayerModel) -> Seq<AudioAction> {
    if p.live {
        seq![AudioAction::SetVolume { id: p.id, volume: vol_up(p.volume) }]
    } else {
        Seq::empty()
    }
}

/// Commands a volume-down detent issues.
pub open spec fn vol_down_actions(p: PlayerModel) -> Seq<AudioAction> {
    if p.live {
        seq![AudioAction::SetVolume { id: p.id, volume: vol_down(p.volume) }]
    } else {
        Seq::empty()
    }
}

/// The playback state of one cue.
///
/// The player owns no audio resource itself: `live` and `handles` track the
/// handle the embedding program holds on the player's behalf, and every
/// method returns the [`AudioAction`] commands the embedding program must
/// perform to keep the real device in step with this state.
pub struct SEPlayer {
    /// MIDI note number of the cue, unique within a registry.
    pub id: u8,
    /// Human-readable name, used only for display.
    pub title: String,
    /// Reference to the cue's audio content, opaque to this library.
    pub sound_path: String,
    /// How the cue reacts to key-down and key-up.
    pub bgm_type: BGMType,
    /// Stored volume in hundredths, always within `[VOLUME_FLOOR, VOLUME_CEIL]`.
    pub volume: u32,
    /// Whether a playback handle is currently live.
    pub live: bool,
    /// How many playback handles this player has ever acquired.
    pub handles: Ghost<nat>,
}

impl View for SEPlayer {
    type V = PlayerModel;

    open spec fn view(&self) -> PlayerModel {
        PlayerModel {
            id: self.id,
            bgm_type: self.bgm_type,
            volume: self.volume,
            live: self.live,
            handles: self.handles@,
        }
    }
}

impl SEPlayer {
    /// The stored volume stays inside the closed volume range.
    pub open spec fn wf(&self) -> bool {
        VOLUME_FLOOR <= self.volume <= VOLUME_CEIL
    }

    /// Makes an idle player for one cue. The nominal volume is pulled into
    /// the volume range, so `wf` holds from the start.
    pub fn new(id: u8, title: String, sound_path: String, volume: u32, bgm_type: BGMType) -> (p: Self)
        ensures
            p@ == (PlayerModel {
                id,
                bgm_type,
                volume: clamp_volume(volume),
                live: false,
                handles: 0nat,
            }),
            p.title@ == title@,
            p.sound_path@ == sound_path@,
            p.wf(),
    {
        let v: u32 = if volume < VOLUME_FLOOR {
            VOLUME_FLOOR
        } else if volume > VOLUME_CEIL {
            VOLUME_CEIL
        } else {
            volume
        };
        SEPlayer { id, title, sound_path, bgm_type, volume: v, live: false, handles: Ghost(0nat) }
    }

    /// (Re)starts playback from the beginning of the cue's source: any live
    /// handle is released first, then a fresh one is acquired at the stored
    /// volume, so retriggering a cue restarts it instead of layering a copy.
    pub fn play(&mut self) -> (acts: Vec<AudioAction>)
        ensures
            final(self)@ == player_play(old(self)@),
            acts@ == play_actions(old(self)@),
            final(self).title@ == old(self).title@,
            final(self).sound_path@ == old(self).sound_path@,
            old(self).wf() ==> final(self).wf(),
    {
        let mut acts: Vec<AudioAction> = Vec::new();
        if self.live {
            acts.push(AudioAction::Stop { id: self.id });
        }
        acts.push(AudioAction::Start { id: self.id, volume: self.volume });
        self.live = true;
        self.handles = Ghost(self.handles@ + 1);
        proof {
            assert(acts@ =~= play_actions(old(self)@));
        }
        acts
    }

    /// Halts and releases the live handle; if none is live, does nothing.
    pub fn stop(&mut self) -> (acts: Vec<AudioAction>)
        ensures
            final(self)@ == player_stop(old(self)@),
            acts@ == stop_actions(old(self)@),
            final(self).title@ == old(self).title@,
            final(self).sound_path@ == old(self).sound_path@,
            old(self).wf() ==> final(self).wf(),
    {
        let mut acts: Vec<AudioAction> = Vec::new();
        if self.live {
            acts.push(AudioAction::Stop { id: self.id });
        }
        self.live = false;
        proof {
            assert(acts@ =~= stop_actions(old(self)@));
        }
        acts
    }

    /// Raises the stored volume by one detent step, clamped at the ceiling,
    /// and applies the new gain to the live handle if there is one.
    pub fn volume_up(&mut self) -> (acts: Vec<AudioAction>)
        ensures
            final(self)@ == player_vol_up(old(self)@),
            acts@ == vol_up_actions(old(self)@),
            final(self).title@ == old(self).title@,
            final(self).sound_path@ == old(self).sound_path@,
            old(self).wf() ==> final(self).wf(),
    {
        self.volume = if self.volume <= VOLUME_CEIL - VOLUME_STEP {
            self.volume + VOLUME_STEP
        } else {
            VOLUME_CEIL
        };
        let mut acts: Vec<AudioAction> = Vec::new();
        if self.live {
            acts.push(AudioAction::SetVolume { id: self.id, volume: self.volume });
        }
        proof {
            assert(acts@ =~= vol_up_actions(old(self)@));
        }
        acts
    }

    /// Lowers the stored volume by one detent step, clamped at the floor,
    /// and applies the new gain to the live handle if there is one.
    pub fn volume_down(&mut self) -> (acts: Vec<AudioAction>)
        ensures
            final(self)@ == player_vol_down(old(self)@),
            acts@ == vol_down_actions(old(self)@),
            final(self).title@ == old(self).title@,
            final(self).sound_path@ == old(self).sound_path@,
            old(self).wf() ==> final(self).wf(),
    {
        self.volume = if self.volume >= VOLUME_FLOOR + VOLUME_STEP {
            self.volume - VOLUME_STEP
        } else {
            VOLUME_FLOOR
        };
        let mut acts: Vec<AudioAction> = Vec::new();
        if self.live {
            acts.push(AudioAction::SetVolume { id: self.id, volume: self.volume });
        }
        proof {
            assert(acts@ =~= vol_down_actions(old(self)@));
        }
        acts
    }
}

} // verus!
