//! The bookkeeping of the audio manager: which effects and tracks are
//! defined, which track is playing, which game events sound an effect, and
//! what each audio event asks for.  Volumes and pitches are applied by the
//! caller.
use vstd::prelude::*;
use crate::order::{contains_name, views};
use crate::text::{chars_equal, chars_of, owned, string_of, trim_chars, trim_seq};

verus! {

/// The defined sounds, the event-to-effect mappings, and the playing track.
pub struct AudioRegistry {
    /// Names of the defined sound effects.
    pub sfx: Vec<String>,
    /// Names of the defined music tracks.
    pub music: Vec<String>,
    /// Game event name and the effect it sounds; event names are distinct.
    pub triggers: Vec<(String, String)>,
    /// The track playing, if any.
    pub current_music: Option<String>,
}

pub open spec fn opt_str_view(o: Option<String>) -> Option<Seq<char>> {
    match o {
        Some(s) => Some(s@),
        None => None,
    }
}

/// The playing track after the defined tracks become `tracks`: it keeps
/// playing only if it is still defined.
pub open spec fn current_after_set_music(current: Option<Seq<char>>, tracks: Seq<Seq<char>>) -> Option<Seq<char>> {
    match current {
        Some(c) => if tracks.contains(c) {
            Some(c)
        } else {
            None
        },
        None => None,
    }
}

/// The playing track after a request to play `name`, and whether it is
/// granted (only a defined track is).
pub open spec fn play_music_spec(current: Option<Seq<char>>, tracks: Seq<Seq<char>>, name: Seq<char>) -> (Option<Seq<char>>, bool) {
    if tracks.contains(name) {
        (Some(name), true)
    } else {
        (current, false)
    }
}

/// The playing track after the music stops, and the track that stopped.
pub open spec fn stop_music_spec(current: Option<Seq<char>>) -> (Option<Seq<char>>, Option<Seq<char>>) {
    (None, current)
}

pub open spec fn trigger_keys(t: Seq<(String, String)>) -> Seq<Seq<char>> {
    t.map_values(|p: (String, String)| p.0@)
}

impl AudioRegistry {
    /// No sounds defined and nothing playing.
    pub fn new() -> (r: AudioRegistry)
        ensures
            r.sfx@.len() == 0,
            r.music@.len() == 0,
            r.triggers@.len() == 0,
            r.current_music is None,
    {
        AudioRegistry { sfx: Vec::new(), music: Vec::new(), triggers: Vec::new(), current_music: None }
    }

    /// Replaces the defined tracks; the playing track stops being current
    /// when it is no longer defined.
    pub fn set_music(&mut self, tracks: Vec<String>)
        ensures
            final(self).music@ == tracks@,
            final(self).sfx@ == old(self).sfx@,
            final(self).triggers@ == old(self).triggers@,
            opt_str_view(final(self).current_music) == current_after_set_music(
                opt_str_view(old(self).current_music),
                views(tracks@),
            ),
    {
        let keep = match &self.current_music {
            Some(c) => contains_name(&tracks, c.as_str()),
            None => false,
        };
        if !keep {
            self.current_music = None;
        }
        self.music = tracks;
    }

    /// Checks that the effect `name` is defined; the error names it.
    pub fn play_sfx(&self, name: &str) -> (r: Result<(), String>)
        ensures
            r is Ok <==> views(self.sfx@).contains(name@),
            r matches Err(e) ==> e@ == "Unknown sfx: "@ + name@,
    {
        if contains_name(&self.sfx, name) {
            Ok(())
        } else {
            let mut e = owned("Unknown sfx: ");
            e.append(name);
            Err(e)
        }
    }

    /// Makes the track `name` current when it is defined; the error names it.
    pub fn play_music(&mut self, name: &str) -> (r: Result<(), String>)
        ensures
            (opt_str_view(final(self).current_music), r is Ok) == play_music_spec(
                opt_str_view(old(self).current_music),
                views(old(self).music@),
                name@,
            ),
            r matches Err(e) ==> e@ == "Unknown music track: "@ + name@,
            final(self).music@ == old(self).music@,
            final(self).sfx@ == old(self).sfx@,
            final(self).triggers@ == old(self).triggers@,
    {
        if contains_name(&self.music, name) {
            self.current_music = Some(owned(name));
            Ok(())
        } else {
            let mut e = owned("Unknown music track: ");
            e.append(name);
            Err(e)
        }
    }

    /// Stops the music; returns the track that was playing.
    pub fn stop_music(&mut self) -> (r: Option<String>)
        ensures
            (opt_str_view(final(self).current_music), opt_str_view(r)) == stop_music_spec(
                opt_str_view(old(self).current_music),
            ),
            final(self).music@ == old(self).music@,
            final(self).sfx@ == old(self).sfx@,
            final(self).triggers@ == old(self).triggers@,
    {
        self.current_music.take()
    }

    /// The effect mapped to the game event `event`, if any. Each event has at
    /// most one mapping (the mappings come from a map keyed by event name).
    pub fn trigger_for(&self, event: &str) -> (r: Option<String>)
        requires
            trigger_keys(self.triggers@).no_duplicates(),
        ensures
            r is None <==> !trigger_keys(self.triggers@).contains(event@),
            forall|i: int|
                0 <= i < self.triggers@.len() && #[trigger] self.triggers@[i].0@ == event@ ==> r is Some
                    && r->0@ == self.triggers@[i].1@,
    {
        let target = chars_of(event);
        let mut i: usize = 0;
        while i < self.triggers.len()
            invariant
                i <= self.triggers@.len(),
                target@ == event@,
                trigger_keys(self.triggers@).no_duplicates(),
                forall|j: int| 0 <= j < i ==> self.triggers@[j].0@ != event@,
            decreases self.triggers@.len() - i,
        {
            if chars_equal(&chars_of(self.triggers[i].0.as_str()), &target) {
                assert(trigger_keys(self.triggers@)[i as int] == event@);
                proof {
                    assert forall|k: int|
                        0 <= k < self.triggers@.len() && #[trigger] self.triggers@[k].0@ == event@ implies k
                        == i by {
                        let keys = trigger_keys(self.triggers@);
                        assert(keys[k] == self.triggers@[k].0@);
                        assert(keys[i as int] == keys[k]);
                    }
                }
                return Some(self.triggers[i].1.clone());
            }
            i += 1;
        }
        proof {
            if trigger_keys(self.triggers@).contains(event@) {
                let j = trigger_keys(self.triggers@).index_of(event@);
                assert(trigger_keys(self.triggers@)[j] == self.triggers@[j].0@);
            }
        }
        None
    }
}

/// What an audio-related game event asks the audio manager to do.
#[derive(PartialEq, Eq, Debug)]
pub enum AudioCommand {
    /// Play this effect (from `audio_play_sfx`, or a trigger mapping).
    PlaySfx(String),
    /// Play this track.
    PlayMusic(String),
    /// Stop the music.
    StopMusic,
    /// Set the volume of this channel to the event's value.
    SetVolume(String),
    /// Sound the effect mapped to the event, if one is.
    Trigger,
    /// Nothing to do.
    Ignore,
}

pub open spec fn cmd_play_sfx() -> Seq<char> {
    "audio_play_sfx"@
}

pub open spec fn cmd_play_music() -> Seq<char> {
    "audio_play_music"@
}

pub open spec fn cmd_stop_music() -> Seq<char> {
    "audio_stop_music"@
}

pub open spec fn cmd_set_volume() -> Seq<char> {
    "audio_set_volume"@
}

/// The command for `name`-like text: its trimmed form when that is not
/// blank, else `Ignore`.
pub open spec fn named_command(text: Option<Seq<char>>, r: AudioCommand, music: bool) -> bool {
    match text {
        Some(n) => if trim_seq(n).len() > 0 {
            if music {
                r matches AudioCommand::PlayMusic(s) && s@ == trim_seq(n)
            } else {
                r matches AudioCommand::PlaySfx(s) && s@ == trim_seq(n)
            }
        } else {
            r is Ignore
        },
        None => r is Ignore,
    }
}

/// `r` is the command for a game event named `event` whose payload carries
/// the text fields `name` and `channel` (when they are strings) and a
/// numeric `value` when `has_value`: names and channels are trimmed and must
/// not be blank; any other event goes to the trigger mappings.
pub open spec fn audio_command_spec(
    r: AudioCommand,
    event: Seq<char>,
    name: Option<Seq<char>>,
    channel: Option<Seq<char>>,
    has_value: bool,
) -> bool {
    if event == "audio_play_sfx"@ {
        named_command(name, r, false)
    } else if event == "audio_play_music"@ {
        named_command(name, r, true)
    } else if event == "audio_stop_music"@ {
        r is StopMusic
    } else if event == "audio_set_volume"@ {
        match channel {
            Some(c) => if trim_seq(c).len() > 0 && has_value {
                r matches AudioCommand::SetVolume(s) && s@ == trim_seq(c)
            } else {
                r is Ignore
            },
            None => r is Ignore,
        }
    } else {
        r is Trigger
    }
}

fn trimmed_nonblank(s: Option<&str>) -> (r: Option<String>)
    ensures
        match s {
            Some(t) => if trim_seq(t@).len() > 0 {
                r matches Some(v) && v@ == trim_seq(t@)
            } else {
                r is None
            },
            None => r is None,
        },
{
    match s {
        Some(t) => {
            let v = trim_chars(&chars_of(t));
            if v.len() > 0 {
                Some(string_of(&v))
            } else {
                None
            }
        },
        None => None,
    }
}

/// What the audio manager does for a game event (see `audio_command_spec`).
pub fn audio_command(event: &str, name: Option<&str>, channel: Option<&str>, has_value: bool) -> (r: AudioCommand)
    ensures
        audio_command_spec(
            r,
            event@,
            match name {
                Some(n) => Some(n@),
                None => None,
            },
            match channel {
                Some(c) => Some(c@),
                None => None,
            },
            has_value,
        ),
{
    let e = chars_of(event);
    if chars_equal(&e, &chars_of("audio_play_sfx")) {
        match trimmed_nonblank(name) {
            Some(n) => AudioCommand::PlaySfx(n),
            None => AudioCommand::Ignore,
        }
    } else if chars_equal(&e, &chars_of("audio_play_music")) {
        match trimmed_nonblank(name) {
            Some(n) => AudioCommand::PlayMusic(n),
            None => AudioCommand::Ignore,
        }
    } else if chars_equal(&e, &chars_of("audio_stop_music")) {
        AudioCommand::StopMusic
    } else if chars_equal(&e, &chars_of("audio_set_volume")) {
        match trimmed_nonblank(channel) {
            Some(c) => if has_value {
                AudioCommand::SetVolume(c)
            } else {
                AudioCommand::Ignore
            },
            None => AudioCommand::Ignore,
        }
    } else {
        AudioCommand::Trigger
    }
}

/// Playing a defined track makes it current, and stopping the music then
/// reports that track and leaves nothing playing.
pub proof fn lemma_play_then_stop(current: Option<Seq<char>>, tracks: Seq<Seq<char>>, name: Seq<char>)
    requires
        tracks.contains(name),
    ensures
        play_music_spec(current, tracks, name) == (Some(name), true),
        stop_music_spec(play_music_spec(current, tracks, name).0) == (None::<Seq<char>>, Some(name)),
{
}

/// A refused request to play leaves the current track as it was.
pub proof fn lemma_unknown_track_keeps_current(current: Option<Seq<char>>, tracks: Seq<Seq<char>>, name: Seq<char>)
    requires
        !tracks.contains(name),
    ensures
        play_music_spec(current, tracks, name) == (current, false),
{
}

/// After the defined tracks are replaced, whatever is current is one of the
/// new tracks; a track that stays defined keeps playing.
pub proof fn lemma_current_track_is_defined(current: Option<Seq<char>>, tracks: Seq<Seq<char>>)
    ensures
        current_after_set_music(current, tracks) matches Some(c) ==> tracks.contains(c),
        current matches Some(c) && tracks.contains(c) ==> current_after_set_music(current, tracks)
            == current,
{
}

} // verus!
