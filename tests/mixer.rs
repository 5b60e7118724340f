use jack_block::error::SoundError;
use jack_block::mixer::{parse_mixer_output, parse_u32, strip_word, MixerReading};

fn reading(volume: u32, muted: bool) -> Result<MixerReading, SoundError> {
    Ok(MixerReading { volume, muted })
}

fn chars(s: &str) -> Vec<char> {
    s.chars().collect()
}

#[test]
fn unmuted_line_reads_volume() {
    assert_eq!(parse_mixer_output("Mono: Playback 50 [80%] [on]"), reading(80, false));
}

#[test]
fn muted_line_reads_off() {
    assert_eq!(parse_mixer_output("Mono: Playback 0 [0%] [off]"), reading(0, true));
}

#[test]
fn full_amixer_output_uses_last_line_and_skips_decibels() {
    let out = "Simple mixer control 'Master',0\n  Capabilities: pvolume pvolume-joined pswitch\n  Playback channels: Mono\n  Limits: Playback 0 - 87\n  Mono: Playback 31 [36%] [-42.00dB] [off]\n";
    assert_eq!(parse_mixer_output(out), reading(36, true));
}

#[test]
fn earlier_lines_do_not_count() {
    let out = "  Front Left: Playback 10 [11%] [off]\n  Front Right: Playback 65536 [100%] [0.00dB] [on]\n\n";
    assert_eq!(parse_mixer_output(out), reading(100, false));
}

#[test]
fn missing_mute_token_means_unmuted() {
    assert_eq!(parse_mixer_output("Mono: Playback 40 [45%]"), reading(45, false));
    assert_eq!(parse_mixer_output("Mono: Playback 40 [45%] [-3.00dB]"), reading(45, false));
}

#[test]
fn any_other_mute_word_means_unmuted() {
    assert_eq!(parse_mixer_output("[12%] [Off]"), reading(12, false));
    assert_eq!(parse_mixer_output("[12%] [offf]"), reading(12, false));
}

#[test]
fn empty_output_is_an_error() {
    assert_eq!(parse_mixer_output(""), Err(SoundError::NoOutput));
    assert_eq!(parse_mixer_output(" \n\t\r\n "), Err(SoundError::NoOutput));
}

#[test]
fn line_without_level_is_an_error() {
    assert_eq!(parse_mixer_output("Mono: Playback 50"), Err(SoundError::NoVolume));
    assert_eq!(parse_mixer_output("[80%] ok\nMono: Playback 50 [-3.00dB]"), Err(SoundError::NoVolume));
}

#[test]
fn non_numeric_level_is_an_error() {
    assert_eq!(parse_mixer_output("Mono: [on] [80%]"), Err(SoundError::BadVolume));
    assert_eq!(parse_mixer_output("[]"), Err(SoundError::BadVolume));
    assert_eq!(parse_mixer_output("[4294967296%]"), Err(SoundError::BadVolume));
    assert_eq!(parse_mixer_output("[-5%]"), Err(SoundError::BadVolume));
}

#[test]
fn large_and_signed_levels() {
    assert_eq!(parse_mixer_output("[4294967295%]"), reading(4294967295, false));
    assert_eq!(parse_mixer_output("[+7%]"), reading(7, false));
    assert_eq!(parse_mixer_output("[150%] [off]"), reading(150, true));
}

#[test]
fn unicode_whitespace_separates_words() {
    assert_eq!(parse_mixer_output("Mono:\u{a0}[33%]\u{2003}[off]\u{3000}"), reading(33, true));
}

#[test]
fn strip_word_removes_brackets_at_both_ends() {
    assert_eq!(strip_word(&chars("[80%]")), chars("80"));
    assert_eq!(strip_word(&chars("[[%]]")), chars(""));
    assert_eq!(strip_word(&chars("[a[b]")), chars("a[b"));
}

#[test]
fn parse_u32_values() {
    assert_eq!(parse_u32(&chars("0")), Some(0));
    assert_eq!(parse_u32(&chars("007")), Some(7));
    assert_eq!(parse_u32(&chars("+")), None);
    assert_eq!(parse_u32(&chars("")), None);
    assert_eq!(parse_u32(&chars("12a")), None);
    assert_eq!(parse_u32(&chars("99999999999")), None);
}
