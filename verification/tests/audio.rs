use taurophone::audio::append_mono_i16;
use taurophone::audio::append_mono_u16;
use taurophone::audio::append_mono_u8;
use taurophone::audio::check_can_start;
use taurophone::audio::choose_config;
use taurophone::audio::device_choice;
use taurophone::audio::find_device;
use taurophone::audio::input_config;
use taurophone::audio::input_device;
use taurophone::audio::finish_recording;
use taurophone::audio::preferred_rate;
use taurophone::audio::start_outcome;
use taurophone::audio::ConfigRange;
use taurophone::audio::DeviceChoice;
use taurophone::audio::Recording;
use taurophone::audio::StartSignal;

fn range(channels: u16, min: u32, max: u32) -> ConfigRange {
    ConfigRange { channels, min_sample_rate: min, max_sample_rate: max }
}

#[test]
fn rate_is_clamped_to_the_range() {
    assert_eq!(preferred_rate(range(1, 8000, 48000)), 16000);
    assert_eq!(preferred_rate(range(1, 44100, 48000)), 44100);
    assert_eq!(preferred_rate(range(1, 8000, 11025)), 11025);
}

#[test]
fn nearest_usable_config_is_chosen() {
    let configs = vec![range(6, 16000, 16000), range(2, 44100, 44100), range(1, 22050, 22050), range(1, 8000, 96000)];
    assert_eq!(choose_config(&configs), Some((3, 16000)));
    let configs = vec![range(2, 48000, 48000), range(1, 44100, 44100), range(2, 44100, 44100)];
    assert_eq!(choose_config(&configs), Some((1, 44100)));
    let configs = vec![range(2, 12000, 12000), range(1, 20000, 20000)];
    assert_eq!(choose_config(&configs), Some((0, 12000)));
}

#[test]
fn no_usable_config() {
    assert_eq!(choose_config(&vec![range(4, 16000, 16000), range(0, 16000, 16000)]), None);
    assert_eq!(choose_config(&vec![]), None);
}

#[test]
fn device_requests() {
    assert_eq!(device_choice(None), DeviceChoice::Default);
    assert_eq!(device_choice(Some("default")), DeviceChoice::Default);
    assert_eq!(device_choice(Some("USB Mic")), DeviceChoice::Named("USB Mic".to_string()));
    let names = vec![None, Some("a".to_string()), Some("USB Mic".to_string()), Some("USB Mic".to_string())];
    assert_eq!(find_device(&names, "USB Mic"), Some(2));
    assert_eq!(find_device(&names, "b"), None);
}

#[test]
fn stereo_i16_is_averaged_toward_zero() {
    let mut out = vec![7i16];
    append_mono_i16(&mut out, &[1, 2, -3, -4, 32767, 32767, -32768, -32768, 5], 2);
    assert_eq!(out, vec![7, 1, -3, 32767, -32768, 2]);
}

#[test]
fn mono_i16_is_copied() {
    let mut out = Vec::new();
    append_mono_i16(&mut out, &[3, -9, 0, 32767], 1);
    assert_eq!(out, vec![3, -9, 0, 32767]);
}

#[test]
fn unsigned_formats_are_centred() {
    let mut out = Vec::new();
    append_mono_u8(&mut out, &[0, 128, 255], 1);
    assert_eq!(out, vec![-32768, 0, 32512]);
    let mut out = Vec::new();
    append_mono_u8(&mut out, &[0, 255, 129], 2);
    assert_eq!(out, vec![-128, 128]);
    let mut out = Vec::new();
    append_mono_u16(&mut out, &[0, 32768, 65535, 0, 1], 2);
    assert_eq!(out, vec![-16384, 0, -16383]);
}

#[test]
fn starting_and_start_outcomes() {
    assert_eq!(check_can_start(true), Err("Already recording".to_string()));
    assert_eq!(check_can_start(false), Ok(()));
    assert_eq!(start_outcome(StartSignal::Started), (true, Ok(())));
    assert_eq!(start_outcome(StartSignal::Failed("boom".to_string())), (false, Err("boom".to_string())));
    assert_eq!(start_outcome(StartSignal::TimedOut), (false, Err("Timeout starting recording".to_string())));
}

#[test]
fn empty_recording_is_an_error() {
    assert_eq!(finish_recording(&vec![], 16000), Err("No audio recorded".to_string()));
}

#[test]
fn recording_becomes_a_wave_file() {
    let wav = finish_recording(&vec![1, -2, 0x1234], 16000).unwrap();
    assert_eq!(wav.len(), 44 + 6);
    assert_eq!(&wav[0..4], b"RIFF");
    assert_eq!(&wav[4..8], &(36u32 + 6).to_le_bytes());
    assert_eq!(&wav[8..16], b"WAVEfmt ");
    assert_eq!(&wav[20..22], &1u16.to_le_bytes());
    assert_eq!(&wav[22..24], &1u16.to_le_bytes());
    assert_eq!(&wav[24..28], &16000u32.to_le_bytes());
    assert_eq!(&wav[34..36], &16u16.to_le_bytes());
    assert_eq!(&wav[36..40], b"data");
    assert_eq!(&wav[40..44], &6u32.to_le_bytes());
    assert_eq!(&wav[44..], &[1, 0, 0xfe, 0xff, 0x34, 0x12]);
}

#[test]
fn a_recording_holds_only_what_was_captured_since_it_started() {
    let mut r = Recording::new();
    assert_eq!(r.sample_rate(), 16000);
    r.append_i16(&[5, 6], 1);
    r.restart(22050);
    assert_eq!(r.len(), 0);
    assert_eq!(r.finish(), Err("No audio recorded".to_string()));
    r.append_i16(&[10, 20, -10, -20], 2);
    r.append_u8(&[128], 1);
    r.extend(&[7]);
    assert_eq!(r.len(), 4);
    assert!(r.is_encodable());
    let first = r.finish().unwrap();
    assert_eq!(first, r.finish().unwrap());
    assert_eq!(&first[24..28], &22050u32.to_le_bytes());
    assert_eq!(&first[28..32], &44100u32.to_le_bytes());
    assert_eq!(&first[44..], &[15, 0, 241, 255, 0, 0, 7, 0]);
}

#[test]
fn start_errors() {
    assert_eq!(input_device(Some(3)), Ok(3));
    assert_eq!(input_device::<u8>(None), Err("No input device available".to_string()));
    assert_eq!(input_config(&vec![range(1, 8000, 48000)]), Ok((0, 16000)));
    assert_eq!(input_config(&vec![range(3, 8000, 48000)]), Err("No suitable audio config found".to_string()));
}
