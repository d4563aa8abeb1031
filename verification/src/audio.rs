//! A profile's audio settings, and the device commands they amount to.
use vstd::prelude::*;
use crate::text::{contains_text, lowercase, text_contains, to_lowercase};

verus! {

/// Whether an audio endpoint plays or records.
#[derive(Clone, Copy, Debug, PartialEq, Eq, Structural)]
pub enum AudioFlow {
    Render,
    Capture,
}

/// An audio endpoint.
#[derive(Clone, Debug, PartialEq, Eq)]
pub struct AudioDevice {
    pub id: String,
    pub name: String,
    pub flow: AudioFlow,
}

/// One audio setting of a profile: it addresses the devices of its flow
/// whose name contains `pattern`, ignoring case, and sets their volume, their
/// mute state and whether they become the default device. The volume level
/// is carried as the bit pattern of the caller's floating-point level; it is
/// handed back unchanged.
#[derive(Clone, Debug, PartialEq, Eq)]
pub struct AudioSetting {
    pub pattern: String,
    pub flow: AudioFlow,
    pub volume: Option<u32>,
    pub muted: Option<bool>,
    pub set_default: Option<bool>,
}

/// One command to an audio device, which is named by its index in the
/// device list.
#[derive(Clone, Copy, Debug, PartialEq, Eq, Structural)]
pub enum AudioCommand {
    SetVolume { device: usize, volume: u32 },
    SetMute { device: usize, muted: bool },
    SetDefault { device: usize },
}

/// `setting` addresses `device`: same flow, and the device's name contains
/// the pattern, both taken in lowercase.
pub open spec fn device_matches(device: AudioDevice, setting: AudioSetting) -> bool {
    &&& contains_text(lowercase(device.name@), lowercase(setting.pattern@))
    &&& device.flow == setting.flow
}

/// The commands for one addressed device: volume, then mute, then default.
pub open spec fn device_commands(device: usize, setting: AudioSetting) -> Seq<AudioCommand> {
    (match setting.volume {
        Some(v) => seq![AudioCommand::SetVolume { device, volume: v }],
        None => seq![],
    }) + (match setting.muted {
        Some(m) => seq![AudioCommand::SetMute { device, muted: m }],
        None => seq![],
    }) + (if setting.set_default == Some(true) {
        seq![AudioCommand::SetDefault { device }]
    } else {
        seq![]
    })
}

/// The commands of a setting for the first `n` devices, in device order.
pub open spec fn setting_commands(devices: Seq<AudioDevice>, setting: AudioSetting, n: int) -> Seq<
    AudioCommand,
>
    decreases n,
{
    if n <= 0 {
        seq![]
    } else {
        let before = setting_commands(devices, setting, n - 1);
        if device_matches(devices[n - 1], setting) {
            before + device_commands((n - 1) as usize, setting)
        } else {
            before
        }
    }
}

/// The commands of the first `n` settings, in setting order.
pub open spec fn settings_commands(devices: Seq<AudioDevice>, settings: Seq<AudioSetting>, n: int) -> Seq<
    AudioCommand,
>
    decreases n,
{
    if n <= 0 {
        seq![]
    } else {
        settings_commands(devices, settings, n - 1) + setting_commands(
            devices,
            settings[n - 1],
            devices.len() as int,
        )
    }
}

/// The device commands that a profile's audio settings amount to: for each
/// setting in turn, for each device it addresses in turn, set the volume if
/// the setting has one, the mute state if it has one, and make the device the
/// default if it asks for that.
pub fn apply_audio_settings(devices: &Vec<AudioDevice>, settings: &Vec<AudioSetting>) -> (r: Vec<
    AudioCommand,
>)
    ensures
        r@ == settings_commands(devices@, settings@, settings@.len() as int),
{
    let mut names: Vec<String> = Vec::new();
    for d in 0..devices.len()
        invariant
            names@.len() == d,
            forall|k: int| 0 <= k < d ==> (#[trigger] names@[k])@ == lowercase(devices@[k].name@),
    {
        names.push(to_lowercase(devices[d].name.as_str()));
    }
    let mut out: Vec<AudioCommand> = Vec::new();
    for s in 0..settings.len()
        invariant
            names@.len() == devices@.len(),
            forall|k: int|
                0 <= k < devices@.len() ==> (#[trigger] names@[k])@ == lowercase(devices@[k].name@),
            out@ == settings_commands(devices@, settings@, s as int),
    {
        let setting = &settings[s];
        let pattern = to_lowercase(setting.pattern.as_str());
        let ghost before = out@;
        for d in 0..devices.len()
            invariant
                names@.len() == devices@.len(),
                forall|k: int|
                    0 <= k < devices@.len() ==> (#[trigger] names@[k])@ == lowercase(
                        devices@[k].name@,
                    ),
                setting == settings@[s as int],
                pattern@ == lowercase(setting.pattern@),
                out@ == before + setting_commands(devices@, *setting, d as int),
        {
            let device = &devices[d];
            if text_contains(names[d].as_str(), pattern.as_str()) && device.flow == setting.flow {
                match setting.volume {
                    Some(v) => out.push(AudioCommand::SetVolume { device: d, volume: v }),
                    None => {},
                }
                match setting.muted {
                    Some(m) => out.push(AudioCommand::SetMute { device: d, muted: m }),
                    None => {},
                }
                if setting.set_default == Some(true) {
                    out.push(AudioCommand::SetDefault { device: d });
                }
                proof {
                    assert(out@ =~= before + setting_commands(devices@, *setting, d as int)
                        + device_commands(d, *setting));
                }
            }
        }
    }
    out
}

/// A command is owed to some setting that addresses its device: a volume to
/// a setting with that volume, a mute state to a setting that sets it, a default
/// switch to a setting that asks for it.
pub open spec fn command_is_owed(devices: Seq<AudioDevice>, settings: Seq<AudioSetting>, c: AudioCommand) -> bool {
    match c {
        AudioCommand::SetVolume { device, volume } => {
            &&& device < devices.len()
            &&& exists|s: int|
                0 <= s < settings.len() && contains_text(lowercase(devices[device as int].name@), lowercase((#[trigger] settings[s]).pattern@)) && devices[device as int].flow == settings[s].flow
                    && settings[s].volume == Some(volume)
        },
        AudioCommand::SetMute { device, muted } => {
            &&& device < devices.len()
            &&& exists|s: int|
                0 <= s < settings.len() && contains_text(lowercase(devices[device as int].name@), lowercase((#[trigger] settings[s]).pattern@)) && devices[device as int].flow == settings[s].flow
                    && settings[s].muted == Some(muted)
        },
        AudioCommand::SetDefault { device } => {
            &&& device < devices.len()
            &&& exists|s: int|
                0 <= s < settings.len() && contains_text(lowercase(devices[device as int].name@), lowercase((#[trigger] settings[s]).pattern@)) && devices[device as int].flow == settings[s].flow
                    && settings[s].set_default == Some(true)
        },
    }
}

proof fn lemma_setting_commands_owed(
    devices: Seq<AudioDevice>,
    settings: Seq<AudioSetting>,
    s: int,
    n: int,
)
    requires
        0 <= s < settings.len(),
        n <= devices.len(),
        devices.len() <= usize::MAX,
    ensures
        forall|i: int|
            0 <= i < setting_commands(devices, settings[s], n).len() ==> command_is_owed(
                devices,
                settings,
                #[trigger] setting_commands(devices, settings[s], n)[i],
            ),
        forall|d: int|
            0 <= d < n && device_matches(devices[d], settings[s]) ==> forall|j: int|
                0 <= j < device_commands(d as usize, settings[s]).len()
                    ==> setting_commands(devices, settings[s], n).contains(
                    #[trigger] device_commands(d as usize, settings[s])[j],
                ),
    decreases n,
{
    if n > 0 {
        lemma_setting_commands_owed(devices, settings, s, n - 1);
        let before = setting_commands(devices, settings[s], n - 1);
        let all = setting_commands(devices, settings[s], n);
        let d = n - 1;
        if device_matches(devices[d], settings[s]) {
            let mine = device_commands(d as usize, settings[s]);
            assert(all == before + mine);
            assert forall|i: int| 0 <= i < all.len() implies command_is_owed(devices, settings, #[trigger] all[i]) by {
                if i < before.len() {
                    assert(all[i] == before[i]);
                } else {
                    let c = mine[i - before.len()];
                    assert(all[i] == c);
                    match c {
                        AudioCommand::SetVolume { device, volume } => {
                            assert(device_matches(devices[device as int], settings[s]));
                        },
                        AudioCommand::SetMute { device, muted } => {
                            assert(device_matches(devices[device as int], settings[s]));
                        },
                        AudioCommand::SetDefault { device } => {
                            assert(device_matches(devices[device as int], settings[s]));
                        },
                    }
                }
            }
            assert forall|e: int, j: int|
                0 <= e < n && device_matches(devices[e], settings[s])
                    && 0 <= j < device_commands(e as usize, settings[s]).len()
                implies all.contains(#[trigger] device_commands(e as usize, settings[s])[j]) by {
                if e < n - 1 {
                    let k = choose|k: int| 0 <= k < before.len() && before[k] == device_commands(e as usize, settings[s])[j];
                    assert(all[k] == before[k]);
                } else {
                    assert(all[before.len() + j] == mine[j]);
                }
            }
        } else {
            assert forall|e: int, j: int|
                0 <= e < n && device_matches(devices[e], settings[s])
                    && 0 <= j < device_commands(e as usize, settings[s]).len()
                implies all.contains(#[trigger] device_commands(e as usize, settings[s])[j]) by {
                assert(e < n - 1);
            }
        }
    }
}

/// Every command that a profile's audio settings amount to is owed to a
/// setting that addresses its device; and every command owed to a setting
/// for a device it addresses is issued.
pub proof fn law_audio_commands_are_exactly_the_owed_ones(
    devices: Seq<AudioDevice>,
    settings: Seq<AudioSetting>,
)
    requires
        devices.len() <= usize::MAX,
    ensures
        forall|i: int|
            0 <= i < settings_commands(devices, settings, settings.len() as int).len()
                ==> command_is_owed(
                devices,
                settings,
                #[trigger] settings_commands(devices, settings, settings.len() as int)[i],
            ),
        forall|s: int, d: int, j: int|
            0 <= s < settings.len() && 0 <= d < devices.len() && device_matches(
                devices[d],
                settings[s],
            ) && 0 <= j < device_commands(d as usize, settings[s]).len()
                ==> settings_commands(devices, settings, settings.len() as int).contains(
                #[trigger] device_commands(d as usize, settings[s])[j],
            ),
{
    lemma_settings_commands_owed(devices, settings, settings.len() as int);
}

proof fn lemma_settings_commands_owed(devices: Seq<AudioDevice>, settings: Seq<AudioSetting>, n: int)
    requires
        n <= settings.len(),
        devices.len() <= usize::MAX,
    ensures
        forall|i: int|
            0 <= i < settings_commands(devices, settings, n).len() ==> command_is_owed(
                devices,
                settings,
                #[trigger] settings_commands(devices, settings, n)[i],
            ),
        forall|s: int, d: int, j: int|
            0 <= s < n && 0 <= d < devices.len() && device_matches(devices[d], settings[s]) && 0
                <= j < device_commands(d as usize, settings[s]).len()
                ==> settings_commands(devices, settings, n).contains(
                #[trigger] device_commands(d as usize, settings[s])[j],
            ),
    decreases n,
{
    if n > 0 {
        lemma_settings_commands_owed(devices, settings, n - 1);
        lemma_setting_commands_owed(devices, settings, n - 1, devices.len() as int);
        let before = settings_commands(devices, settings, n - 1);
        let mine = setting_commands(devices, settings[n - 1], devices.len() as int);
        let all = settings_commands(devices, settings, n);
        assert(all == before + mine);
        assert forall|i: int| 0 <= i < all.len() implies command_is_owed(devices, settings, #[trigger] all[i]) by {
            if i < before.len() {
                assert(all[i] == before[i]);
            } else {
                assert(all[i] == mine[i - before.len()]);
            }
        }
        assert forall|s: int, d: int, j: int|
            0 <= s < n && 0 <= d < devices.len() && device_matches(devices[d], settings[s]) && 0
                <= j < device_commands(d as usize, settings[s]).len()
            implies all.contains(#[trigger] device_commands(d as usize, settings[s])[j]) by {
            let c = device_commands(d as usize, settings[s])[j];
            if s < n - 1 {
                let k = choose|k: int| 0 <= k < before.len() && before[k] == c;
                assert(all[k] == before[k]);
            } else {
                let k = choose|k: int| 0 <= k < mine.len() && mine[k] == c;
                assert(all[before.len() + k] == mine[k]);
            }
        }
    }
}

/// Each field of a setting is applied to every device the setting
/// addresses (same flow, and the device's name contains the pattern when
/// both are lowercased), whatever the setting's other fields say: its volume
/// level if it has one, its mute state if it has one, and the default-device
/// switch if it asks for it.
pub proof fn law_every_field_reaches_every_addressed_device(
    devices: Seq<AudioDevice>,
    settings: Seq<AudioSetting>,
)
    requires
        devices.len() <= usize::MAX,
    ensures
        forall|s: int, d: int|
            0 <= s < settings.len() && 0 <= d < devices.len() && contains_text(
                lowercase((#[trigger] devices[d]).name@),
                lowercase((#[trigger] settings[s]).pattern@),
            ) && devices[d].flow == settings[s].flow ==> {
                let cmds = settings_commands(devices, settings, settings.len() as int);
                &&& (settings[s].volume matches Some(v) ==> cmds.contains(
                    AudioCommand::SetVolume { device: d as usize, volume: v },
                ))
                &&& (settings[s].muted matches Some(m) ==> cmds.contains(
                    AudioCommand::SetMute { device: d as usize, muted: m },
                ))
                &&& (settings[s].set_default == Some(true) ==> cmds.contains(
                    AudioCommand::SetDefault { device: d as usize },
                ))
            },
{
    lemma_settings_commands_owed(devices, settings, settings.len() as int);
    assert forall|s: int, d: int|
        0 <= s < settings.len() && 0 <= d < devices.len() && contains_text(
            lowercase((#[trigger] devices[d]).name@),
            lowercase((#[trigger] settings[s]).pattern@),
        ) && devices[d].flow == settings[s].flow implies {
            let cmds = settings_commands(devices, settings, settings.len() as int);
            &&& (settings[s].volume matches Some(v) ==> cmds.contains(
                AudioCommand::SetVolume { device: d as usize, volume: v },
            ))
            &&& (settings[s].muted matches Some(m) ==> cmds.contains(
                AudioCommand::SetMute { device: d as usize, muted: m },
            ))
            &&& (settings[s].set_default == Some(true) ==> cmds.contains(
                AudioCommand::SetDefault { device: d as usize },
            ))
        } by {
        let st = settings[s];
        let mine = device_commands(d as usize, st);
        assert(device_matches(devices[d], st));
        let nv: int = if st.volume is Some { 1 } else { 0 };
        let nm: int = if st.muted is Some { 1 } else { 0 };
        if st.volume is Some {
            assert(mine[0] == AudioCommand::SetVolume { device: d as usize, volume: st.volume->0 });
        }
        if st.muted is Some {
            assert(mine[nv] == AudioCommand::SetMute { device: d as usize, muted: st.muted->0 });
        }
        if st.set_default == Some(true) {
            assert(mine[nv + nm] == AudioCommand::SetDefault { device: d as usize });
        }
    }
}

/// The commands for a single device and a single setting: nothing when the
/// setting does not address the device; otherwise its volume (if it has
/// one), then its mute state (if it has one), then the default-device switch
/// (if it asks for it), each independently of the others.
pub proof fn law_commands_for_one_device(device: AudioDevice, setting: AudioSetting)
    ensures
        settings_commands(seq![device], seq![setting], 1) == if contains_text(
            lowercase(device.name@),
            lowercase(setting.pattern@),
        ) && device.flow == setting.flow {
            (match setting.volume {
                Some(v) => seq![AudioCommand::SetVolume { device: 0, volume: v }],
                None => Seq::<AudioCommand>::empty(),
            }) + (match setting.muted {
                Some(m) => seq![AudioCommand::SetMute { device: 0, muted: m }],
                None => Seq::<AudioCommand>::empty(),
            }) + (if setting.set_default == Some(true) {
                seq![AudioCommand::SetDefault { device: 0 }]
            } else {
                Seq::<AudioCommand>::empty()
            })
        } else {
            Seq::<AudioCommand>::empty()
        },
{
    let devices = seq![device];
    let settings = seq![setting];
    assert(settings[0] == setting);
    assert(devices[0] == device);
    assert(settings_commands(devices, settings, 0) =~= Seq::<AudioCommand>::empty());
    assert(setting_commands(devices, setting, 0) =~= Seq::<AudioCommand>::empty());
    assert(settings_commands(devices, settings, 1) =~= settings_commands(devices, settings, 0)
        + setting_commands(devices, setting, 1));
    if device_matches(device, setting) {
        assert(setting_commands(devices, setting, 1) =~= device_commands(0, setting));
    } else {
        assert(setting_commands(devices, setting, 1) =~= Seq::<AudioCommand>::empty());
    }
}

} // verus!
