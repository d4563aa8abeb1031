//! Profiles as the user interface sees them: a display profile with the
//! audio settings stored beside it.
use vstd::prelude::*;
use crate::audio::AudioSetting;
use crate::display::{Layout, Profile};

verus! {

/// What is stored for a profile beside its display layout: the layout and
/// the audio settings to apply with it.
#[derive(Clone, Debug, PartialEq, Eq)]
pub struct KaiserProfile {
    pub layout: Layout,
    pub audio: Vec<AudioSetting>,
}

/// A profile as it is shown: its name, its layout and its audio settings.
#[derive(Clone, Debug, PartialEq, Eq)]
pub struct ProfileDto {
    pub name: String,
    pub layout: Layout,
    pub audio: Vec<AudioSetting>,
}

/// The audio settings stored for a profile, none when nothing is stored.
pub open spec fn stored_audio(stored: Option<KaiserProfile>) -> Seq<AudioSetting> {
    match stored {
        Some(kp) => kp.audio@,
        None => Seq::empty(),
    }
}

/// The profile as it is shown, given what is stored beside it (`None` when
/// nothing could be loaded): its audio settings are the stored ones, or none.
pub fn to_profile_dto(profile: &Profile, stored: Option<KaiserProfile>) -> (r: ProfileDto)
    ensures
        r.name@ == profile.name@,
        r.layout@ == profile.layout@,
        r.audio@ == stored_audio(stored),
{
    let audio = match stored {
        Some(kp) => kp.audio,
        None => Vec::new(),
    };
    ProfileDto { name: profile.name.clone(), layout: profile.layout.duplicate(), audio }
}

/// What is stored when a profile is saved: the current layout, and the audio
/// settings given, or none.
pub fn kaiser_profile_for(layout: Layout, audio: Option<Vec<AudioSetting>>) -> (r: KaiserProfile)
    ensures
        r.layout@ == layout@,
        r.audio@ == match audio {
            Some(a) => a@,
            None => Seq::empty(),
        },
{
    let audio = match audio {
        Some(a) => a,
        None => Vec::new(),
    };
    KaiserProfile { layout, audio }
}

/// The audio settings to apply when a profile is applied: the stored ones,
/// when something is stored and it holds at least one setting.
pub fn profile_audio_to_apply(stored: Option<KaiserProfile>) -> (r: Option<Vec<AudioSetting>>)
    ensures
        match r {
            Some(a) => stored_audio(stored).len() > 0 && a@ == stored_audio(stored),
            None => stored_audio(stored).len() == 0,
        },
{
    match stored {
        Some(kp) => {
            if kp.audio.len() == 0 {
                None
            } else {
                Some(kp.audio)
            }
        },
        None => None,
    }
}

} // verus!
