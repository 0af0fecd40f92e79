use libuhdr::avif::{encode_hdr10_ycbcr_pixels_to_avif, encode_ycbcr_pixels_to_avif};
use libuhdr::{AvifError, AvifSettings, FrameFault, YcbcrMatrix};

fn frame(width: usize, height: usize) -> Vec<[u16; 3]> {
    (0..width * height)
        .map(|i| [(i * 37 % 1024) as u16, 512, (1023 - i % 1024) as u16])
        .collect()
}

#[test]
fn hdr10_settings_are_quality_100_and_speed_4() {
    let settings = AvifSettings::hdr10();
    assert_eq!(
        settings,
        AvifSettings { quality: 100, speed: 4, full_range: true, matrix: YcbcrMatrix::BT2020NCL }
    );
}

#[test]
fn frame_is_encoded_to_an_avif_file() {
    let pixels = frame(16, 16);
    let file = encode_hdr10_ycbcr_pixels_to_avif(16, 16, &pixels).unwrap();
    assert!(file.len() > 32);
    assert_eq!(&file[4..8], b"ftyp");
    assert_eq!(&file[8..12], b"avif");
    // The file is no copy of the samples.
    assert_ne!(file.len(), pixels.len() * 6);
}

#[test]
fn frame_is_encoded_with_other_settings() {
    let pixels = frame(16, 8);
    let settings =
        AvifSettings { quality: 50, speed: 10, full_range: false, matrix: YcbcrMatrix::BT709 };
    let file = encode_ycbcr_pixels_to_avif(settings, 16, 8, &pixels).unwrap();
    assert_eq!(&file[4..12], b"ftypavif");
}

#[test]
fn frame_with_another_number_of_pixels_is_refused() {
    let pixels = frame(4, 4);
    let fault = Err(AvifError::Frame(FrameFault::PixelCount));
    assert_eq!(encode_hdr10_ycbcr_pixels_to_avif(4, 5, &pixels), fault);
    assert_eq!(encode_hdr10_ycbcr_pixels_to_avif(5, 4, &pixels), fault);
    assert_eq!(encode_hdr10_ycbcr_pixels_to_avif(4, 3, &pixels), fault);
    assert_eq!(encode_hdr10_ycbcr_pixels_to_avif(0, 0, &pixels), fault);
    assert_eq!(encode_hdr10_ycbcr_pixels_to_avif(usize::MAX, 2, &pixels), fault);
    assert_eq!(encode_hdr10_ycbcr_pixels_to_avif(usize::MAX, usize::MAX, &[]), fault);
}

#[test]
fn sample_of_more_than_ten_bits_is_refused() {
    let fault = Err(AvifError::Frame(FrameFault::SampleRange));
    for channel in 0..3 {
        let mut pixels = frame(4, 4);
        pixels[15][channel] = 1024;
        assert_eq!(encode_hdr10_ycbcr_pixels_to_avif(4, 4, &pixels), fault);
        pixels[15][channel] = 1023;
        pixels[0][channel] = u16::MAX;
        assert_eq!(encode_hdr10_ycbcr_pixels_to_avif(4, 4, &pixels), fault);
    }
}

#[test]
fn number_of_pixels_is_judged_before_the_samples() {
    let mut pixels = frame(4, 4);
    pixels[3][1] = 2000;
    assert_eq!(
        encode_hdr10_ycbcr_pixels_to_avif(4, 5, &pixels),
        Err(AvifError::Frame(FrameFault::PixelCount))
    );
}

#[test]
fn extent_that_the_encoder_refuses_is_a_failure_of_the_encoder() {
    match encode_hdr10_ycbcr_pixels_to_avif(0, 0, &[]) {
        Err(AvifError::Encoder(message)) => assert!(!message.is_empty()),
        other => panic!("a failure of the encoder was expected, not {:?}", other),
    }
}

#[test]
fn settings_that_the_encoder_does_not_take_are_refused() {
    let pixels = frame(4, 4);
    let good = AvifSettings::hdr10();
    for settings in [
        AvifSettings { quality: 0, ..good },
        AvifSettings { quality: 101, ..good },
        AvifSettings { speed: 0, ..good },
        AvifSettings { speed: 11, ..good },
        AvifSettings { quality: 255, speed: 255, ..good },
    ] {
        assert_eq!(encode_ycbcr_pixels_to_avif(settings, 4, 4, &pixels), Err(AvifError::Settings));
        // The settings are judged before the frame.
        assert_eq!(encode_ycbcr_pixels_to_avif(settings, 4, 5, &pixels), Err(AvifError::Settings));
    }
    for settings in [
        AvifSettings { quality: 1, speed: 10, ..good },
        AvifSettings { quality: 100, speed: 10, ..good },
    ] {
        assert!(encode_ycbcr_pixels_to_avif(settings, 16, 16, &frame(16, 16)).is_ok());
    }
}
