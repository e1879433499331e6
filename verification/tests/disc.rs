use rsx::capture::wav_bytes;
use rsx::cue::{bin_name_from_cue, CueError};
use rsx::disc::{Disc, SECTOR_LEN};

fn name(text: &str) -> Result<String, CueError> {
    bin_name_from_cue(&text.to_string()).map(|v| v.into_iter().collect())
}

#[test]
fn cue_names_the_quoted_file() {
    let cue = "FILE \"game.bin\" BINARY\n  TRACK 01 MODE2/2352\n    INDEX 01 00:00:00\n";
    assert_eq!(name(cue), Ok("game.bin".to_string()));
}

#[test]
fn cue_takes_the_first_word_of_an_unquoted_name() {
    let cue = "FILE game.bin BINARY\r\nTRACK 01 MODE1/2352\r\n";
    assert_eq!(name(cue), Ok("game.bin".to_string()));
}

#[test]
fn cue_without_a_raw_track_is_refused() {
    let cue = "FILE \"game.bin\" BINARY\n  TRACK 01 AUDIO\n";
    assert_eq!(name(cue), Err(CueError::NoRawTrack));
}

#[test]
fn cue_without_file_is_refused() {
    assert_eq!(name("TRACK 01 MODE2/2352\n"), Err(CueError::NoFile));
}

#[test]
fn cue_with_unterminated_name_is_refused() {
    assert_eq!(name("FILE \"game.bin BINARY\nTRACK 01 MODE2/2352\n"), Err(CueError::UnterminatedName));
}

#[test]
fn short_image_is_no_disc() {
    assert!(Disc::from_image(vec![0u8; SECTOR_LEN - 1]).is_err());
}

#[test]
fn license_sector_names_region_and_license() {
    let mut bin = vec![0u8; SECTOR_LEN * 24];
    let lic = b"          Licensed  by          Sony Computer Entertainment Amer  ica";
    bin[SECTOR_LEN * 4 + 24..SECTOR_LEN * 4 + 24 + lic.len()].copy_from_slice(lic);
    let disc = match Disc::from_image(bin) {
        Ok(d) => d,
        Err(_) => panic!("24 sectors are a disc"),
    };
    assert_eq!(&disc.region, b"SCEA");
    assert!(disc.licensed);
    assert_eq!(disc.sector_count(), 24);
    assert_eq!(disc.sector(23).map(|s| s.len()), Some(SECTOR_LEN));
    assert!(disc.sector(24).is_none());
    let blank = match Disc::from_image(vec![0u8; SECTOR_LEN * 24]) {
        Ok(d) => d,
        Err(_) => panic!("24 sectors are a disc"),
    };
    assert_eq!(&blank.region, b"SCEI");
    assert!(!blank.licensed);
}

#[test]
fn wav_header_describes_stereo_44100() {
    let b = wav_bytes(&vec![1i16, -1]);
    assert_eq!(b.len(), 44 + 4);
    assert_eq!(&b[0..4], b"RIFF");
    assert_eq!(u32::from_le_bytes([b[4], b[5], b[6], b[7]]), 36 + 4);
    assert_eq!(&b[8..16], b"WAVEfmt ");
    assert_eq!(u32::from_le_bytes([b[24], b[25], b[26], b[27]]), 44100);
    assert_eq!(u32::from_le_bytes([b[28], b[29], b[30], b[31]]), 176_400);
    assert_eq!(&b[36..40], b"data");
    assert_eq!(&b[44..48], &[1, 0, 0xFF, 0xFF]);
}

#[test]
fn write_wav_has_riff_header_and_samples() {
    let data = wav_bytes(&vec![0i16, 0, 16, -16]);
    assert_eq!(&data[0..4], b"RIFF");
    assert_eq!(&data[8..12], b"WAVE");
    assert_eq!(data.len(), 44 + 8);
}
