use affine_native::media::{
    encoder_settings, AudioFormatFlags, AudioFormatID, Application, Bitrate, CoreAudioError,
    EncodeOptions, EncoderSetting, Mode, Quality, RecordingPermissions, IS_FLOAT, IS_PACKED,
};

#[test]
fn quality_levels_run_from_best_to_worst() {
    let all = [
        Quality::Best,
        Quality::SecondBest,
        Quality::NearBest,
        Quality::VeryNice,
        Quality::Nice,
        Quality::Good,
        Quality::Decent,
        Quality::Okay,
        Quality::SecondWorst,
        Quality::Worst,
    ];
    for (level, quality) in all.iter().enumerate() {
        assert_eq!(quality.level() as usize, level);
    }
}

#[test]
fn bitrates_in_kbps() {
    assert_eq!(Bitrate::Kbps8.kbps(), 8);
    assert_eq!(Bitrate::Kbps112.kbps(), 112);
    assert_eq!(Bitrate::Kbps128.kbps(), 128);
    assert_eq!(Bitrate::Kbps320.kbps(), 320);
}

#[test]
fn encoder_gets_what_the_options_name() {
    let options = EncodeOptions {
        channels: 2,
        quality: Some(Quality::Good),
        bitrate: None,
        sample_rate: Some(44_100),
        mode: Some(Mode::JointStereo),
    };
    assert_eq!(
        encoder_settings(&options),
        vec![
            EncoderSetting::Channels(2),
            EncoderSetting::Quality(Quality::Good),
            EncoderSetting::SampleRate(44_100),
            EncoderSetting::Mode(Mode::JointStereo),
        ]
    );

    let bare = EncodeOptions {
        channels: 258,
        quality: None,
        bitrate: Some(Bitrate::Kbps192),
        sample_rate: None,
        mode: None,
    };
    assert_eq!(
        encoder_settings(&bare),
        vec![EncoderSetting::Channels(2), EncoderSetting::Bitrate(Bitrate::Kbps192)]
    );
}

#[test]
fn audio_formats_by_code() {
    assert_eq!(AudioFormatID::from(0x6C70636D), AudioFormatID::LinearPcm);
    assert_eq!(AudioFormatID::from(0x2E6D7033), AudioFormatID::MpegLayer3);
    assert_eq!(AudioFormatID::from(0x6D730011), AudioFormatID::DviIntelIma);
    assert_eq!(AudioFormatID::from(0x61706163), AudioFormatID::Apac);
    assert_eq!(AudioFormatID::from(0), AudioFormatID::Unknown);
    assert_eq!(AudioFormatID::from(12345), AudioFormatID::Unknown);
    assert_eq!(AudioFormatID::Flac.code(), 0x666C6163);
    assert_eq!(AudioFormatID::Unknown.code(), 0);
    assert_eq!(AudioFormatID::from(AudioFormatID::Opus.code()), AudioFormatID::Opus);
    assert_eq!(&AudioFormatID::Mpeg4Aac.code().to_be_bytes(), b"aac ");
}

#[test]
fn audio_flags_in_words() {
    assert_eq!(AudioFormatFlags(0).describe(), "NONE");
    assert_eq!(AudioFormatFlags(IS_FLOAT).describe(), "FLOAT");
    assert_eq!(AudioFormatFlags(IS_FLOAT | IS_PACKED).describe(), "FLOAT | PACKED");
    assert_eq!(
        AudioFormatFlags(0x8000_007f).describe(),
        "FLOAT | BIG_ENDIAN | SIGNED_INTEGER | PACKED | ALIGNED_HIGH | NON_INTERLEAVED | \
         NON_MIXABLE | ALL_CLEAR"
    );
    assert_eq!(AudioFormatFlags(0x80).describe(), "NONE");
    assert_eq!(AudioFormatFlags::from(6).names(), vec!["BIG_ENDIAN", "SIGNED_INTEGER"]);
    assert_eq!(AudioFormatFlags::from(6), AudioFormatFlags(6));
}

#[test]
fn capture_errors_in_words() {
    assert_eq!(CoreAudioError::PidNotFound(42).message(), "Map pid 42 to AudioObjectID failed");
    assert_eq!(
        CoreAudioError::CreateProcessTapFailed(-50).message(),
        "Create process tap failed, status: -50"
    );
    assert_eq!(
        CoreAudioError::AudioDeviceStartFailed(i32::MIN).message(),
        "AudioDeviceStart failed, status: -2147483648"
    );
    assert_eq!(
        CoreAudioError::GetAudioStreamBasicDescriptionFailed(0).message(),
        "Get AudioStreamBasicDescription failed, status: 0"
    );
    assert_eq!(
        CoreAudioError::CATapDescriptionClassNotFound.message(),
        "CATapDescription class not found"
    );
    assert_eq!(CoreAudioError::WriteAVAudioFileFailed.message(), "Write AVAudioFile failed");
}

#[test]
fn applications_and_their_groups() {
    let app = Application::named(7, Some("Player".to_string()));
    assert_eq!((app.process_id(), app.name.as_str()), (7, "Player"));
    assert_eq!(app.process_group_id(3), 3);
    assert_eq!(app.process_group_id(-1), 7);

    let unknown = Application::named(7, None);
    assert_eq!(unknown.name, "");

    let none = Application::named(0, Some("Player".to_string()));
    assert_eq!(none.name, "");
    assert_eq!(none.process_group_id(3), -1);
    assert_eq!(Application::named(-4, None).process_group_id(-1), -1);
}

#[test]
fn nothing_is_allowed_at_first() {
    assert_eq!(RecordingPermissions::default(), RecordingPermissions { audio: false, screen: false });
}
