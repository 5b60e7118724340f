use jack_block::display::{project, BlockView, Status, VolumeIcon, WidgetState};
use jack_block::error::SoundError;

fn status(volume: u32, muted: bool, running: bool, rolling: bool, capturing: bool) -> Status {
    Status { volume, muted, running, rolling, capturing }
}

fn shown(st: Status, show: bool, icon: Option<&str>) -> BlockView {
    project(st, show, icon).ok().unwrap()
}

#[test]
fn unmuted_without_server_shows_alsa() {
    let v = shown(status(5, false, false, true, true), false, None);
    assert_eq!(v.text, "ALSA 05%  \u{f111} ");
    assert_eq!(v.icon, VolumeIcon::Empty);
    assert_eq!(v.state, WidgetState::Idle);
}

#[test]
fn unmuted_with_rolling_server() {
    let v = shown(status(42, false, true, true, false), false, None);
    assert_eq!(v.text, "JACK 42%  \u{f04b} ");
    assert_eq!(v.icon, VolumeIcon::Half);
}

#[test]
fn unmuted_with_stopped_server_and_capture() {
    let v = shown(status(100, false, true, false, true), false, None);
    assert_eq!(v.text, "JACK 100%  \u{f111}  \u{f04d} ");
    assert_eq!(v.icon, VolumeIcon::Full);
}

#[test]
fn icon_thresholds() {
    assert_eq!(shown(status(0, false, false, false, false), false, None).icon, VolumeIcon::Empty);
    assert_eq!(shown(status(20, false, false, false, false), false, None).icon, VolumeIcon::Empty);
    assert_eq!(shown(status(21, false, false, false, false), false, None).icon, VolumeIcon::Half);
    assert_eq!(shown(status(70, false, false, false, false), false, None).icon, VolumeIcon::Half);
    assert_eq!(shown(status(71, false, false, false, false), false, None).icon, VolumeIcon::Full);
    assert_eq!(shown(status(4294967295, false, false, false, false), false, None).text, "ALSA 4294967295% ");
}

#[test]
fn muted_shows_icon_only_or_with_volume() {
    let v = shown(status(7, true, true, true, true), false, Some("M"));
    assert_eq!(v.text, "M");
    assert_eq!(v.icon, VolumeIcon::Empty);
    assert_eq!(v.state, WidgetState::Warning);
    let v = shown(status(7, true, true, true, true), true, Some("M"));
    assert_eq!(v.text, "M 07%");
}

#[test]
fn muted_without_icon_is_an_error() {
    assert_eq!(project(status(7, true, false, false, false), true, None).err(), Some(SoundError::MissingIcon));
    assert!(project(status(7, false, false, false, false), true, None).is_ok());
}

#[test]
fn icon_names() {
    assert_eq!(VolumeIcon::Empty.name(), "volume_empty");
    assert_eq!(VolumeIcon::Half.name(), "volume_half");
    assert_eq!(VolumeIcon::Full.name(), "volume_full");
}

#[test]
fn error_messages_name_the_step() {
    assert_eq!(SoundError::MixerUnavailable.message(), "could not run amixer to get sound info");
    assert_eq!(SoundError::NoOutput.message(), "could not get sound info");
    assert_eq!(SoundError::NoVolume.message(), "could not get volume");
    assert_eq!(SoundError::BadVolume.message(), "could not parse volume to u32");
    assert_eq!(SoundError::MissingIcon.message(), "cannot find icon");
}
