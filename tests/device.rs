use jack_block::device::{JackSoundDevice, ServerProbe, TransportState};
use jack_block::error::SoundError;

fn probe(transport: TransportState, capture_port: bool) -> Option<ServerProbe> {
    Some(ServerProbe { transport, capture_port })
}

#[test]
fn new_device_reads_mixer_and_server() {
    let d = JackSoundDevice::new("Master".to_string(), probe(TransportState::Rolling, true), "[80%] [on]").unwrap();
    assert_eq!(d.name, "Master");
    assert_eq!(d.volume(), 80);
    assert!(!d.muted());
    assert!(d.jack_running());
    assert!(d.jack_rolling());
    assert!(d.jack_capturing());
}

#[test]
fn new_device_fails_on_bad_output() {
    let r = JackSoundDevice::new("Master".to_string(), None, "nothing here");
    assert_eq!(r.err(), Some(SoundError::NoVolume));
}

#[test]
fn failed_connection_clears_server_state() {
    let mut d = JackSoundDevice::new("Master".to_string(), probe(TransportState::Rolling, true), "[80%]").unwrap();
    assert_eq!(d.get_info(None, "[60%] [off]"), Ok(()));
    assert!(!d.jack_running());
    assert!(!d.jack_rolling());
    assert!(!d.jack_capturing());
    assert_eq!(d.volume(), 60);
    assert!(d.muted());
}

#[test]
fn only_rolling_transport_counts_as_rolling() {
    let states = [
        TransportState::Stopped,
        TransportState::Looping,
        TransportState::Starting,
        TransportState::NetStarting,
        TransportState::Unknown(9),
    ];
    for s in states.iter() {
        let d = JackSoundDevice::new("Master".to_string(), probe(*s, false), "[5%]").unwrap();
        assert!(d.jack_running());
        assert!(!d.jack_rolling());
        assert!(!d.jack_capturing());
    }
    let d = JackSoundDevice::new("Master".to_string(), probe(TransportState::Rolling, false), "[5%]").unwrap();
    assert!(d.jack_rolling());
}

#[test]
fn failed_refresh_leaves_device_untouched() {
    let mut d = JackSoundDevice::new("PCM".to_string(), probe(TransportState::Rolling, true), "[70%] [off]").unwrap();
    assert_eq!(d.get_info(None, "Mono: Playback 50"), Err(SoundError::NoVolume));
    assert_eq!(d.volume(), 70);
    assert!(d.muted());
    assert!(d.jack_running());
    assert!(d.jack_rolling());
    assert!(d.jack_capturing());
    assert_eq!(d.get_info(None, ""), Err(SoundError::NoOutput));
    assert_eq!(d.get_info(None, "[x%]"), Err(SoundError::BadVolume));
    assert_eq!(d.volume(), 70);
    assert!(d.jack_running());
}
