use jack_block::block::{Jack, SoundConfig, SoundDriver};
use jack_block::device::{ServerProbe, TransportState};
use jack_block::display::{VolumeIcon, WidgetState};
use jack_block::error::SoundError;

fn rolling() -> Option<ServerProbe> {
    Some(ServerProbe { transport: TransportState::Rolling, capture_port: false })
}

#[test]
fn config_defaults() {
    let c = SoundConfig::default();
    assert_eq!(c.driver, SoundDriver::Auto);
    assert_eq!(c.name, None);
    assert!(!c.show_volume_when_muted);
    assert_eq!(SoundConfig::default_name(), None);
    assert!(!SoundConfig::default_show_volume_when_muted());
    assert_eq!(SoundDriver::default(), SoundDriver::Auto);
}

#[test]
fn control_name_defaults_to_master() {
    assert_eq!(SoundConfig::default().control_name(), "Master");
    let c = SoundConfig { driver: SoundDriver::Alsa, name: Some("PCM".to_string()), show_volume_when_muted: true };
    assert_eq!(c.control_name(), "PCM");
}

#[test]
fn identities_are_hex_and_distinct() {
    let a = Jack::new(SoundConfig::default(), None, "[10%]").ok().unwrap();
    let b = Jack::new(SoundConfig::default(), None, "[10%]").ok().unwrap();
    assert_eq!(a.id().len(), 32);
    assert!(a.id().chars().all(|c| c.is_ascii_digit() || ('a'..='f').contains(&c)));
    assert_ne!(a.id(), b.id());
}

#[test]
fn listeners_carry_block_identity() {
    let b = Jack::with_identity("id-1".to_string(), SoundConfig::default(), None, "[10%]").ok().unwrap();
    let mut l1 = b.listener();
    let mut l2 = b.listener();
    assert_eq!(l1.on_event(0).unwrap().id, "id-1");
    assert_eq!(l2.on_event(0).unwrap().id, "id-1");
    assert_eq!(l1.on_event(1000).unwrap().id, b.id());
}

#[test]
fn new_block_fails_when_mixer_output_is_bad() {
    assert_eq!(Jack::new(SoundConfig::default(), None, "").err(), Some(SoundError::NoOutput));
}

#[test]
fn new_block_shows_empty_icon() {
    let b = Jack::with_identity("x".to_string(), SoundConfig::default(), None, "[90%]").ok().unwrap();
    assert_eq!(b.view().icon, VolumeIcon::Empty);
    assert_eq!(b.view().text, "");
    assert_eq!(b.control_name(), "Master");
}

#[test]
fn update_redraws_block() {
    let mut b = Jack::with_identity("x".to_string(), SoundConfig::default(), None, "[90%]").ok().unwrap();
    assert_eq!(b.update(rolling(), "Mono: Playback 50 [80%] [on]", None), Ok(None));
    assert_eq!(b.view().text, "JACK 80%  \u{f04b} ");
    assert_eq!(b.view().icon, VolumeIcon::Full);
    assert_eq!(b.update(None, "Mono: Playback 0 [0%] [off]", Some("MUTE")), Ok(None));
    assert_eq!(b.view().text, "MUTE");
    assert_eq!(b.view().state, WidgetState::Warning);
}

#[test]
fn muted_block_shows_volume_when_asked() {
    let c = SoundConfig { driver: SoundDriver::Auto, name: None, show_volume_when_muted: true };
    let mut b = Jack::with_identity("x".to_string(), c, None, "[90%]").ok().unwrap();
    assert_eq!(b.display(None, "[3%] [off]", Some("M")), Ok(()));
    assert_eq!(b.view().text, "M 03%");
}

#[test]
fn failed_update_keeps_view() {
    let mut b = Jack::with_identity("x".to_string(), SoundConfig::default(), None, "[90%]").ok().unwrap();
    assert_eq!(b.update(None, "[30%]", None), Ok(None));
    assert_eq!(b.update(rolling(), "no level here", None), Err(SoundError::NoVolume));
    assert_eq!(b.view().text, "ALSA 30% ");
    assert_eq!(b.update(None, "[30%] [off]", None), Err(SoundError::MissingIcon));
    assert_eq!(b.view().text, "ALSA 30% ");
}
