use sapphire_agent::audio::{decode, encode, from_bytes, samples, to_bytes, AudioError};

#[test]
fn samples_go_little_end_first() {
    assert_eq!(
        to_bytes(&vec![1, -2, i16::MIN, i16::MAX]),
        vec![0x01, 0x00, 0xfe, 0xff, 0x00, 0x80, 0xff, 0x7f]
    );
    assert_eq!(
        from_bytes(&vec![0x01, 0x00, 0xfe, 0xff, 0x00]),
        vec![1, -2]
    );
}

#[test]
fn every_sample_survives_the_way_over_the_wire() {
    let all: Vec<i16> = (i16::MIN..=i16::MAX).collect();
    assert_eq!(decode(&encode(&all)), Ok(all));
}

#[test]
fn sound_is_written_in_base64() {
    assert_eq!(encode(&vec![0x6261, 0x6463]), "YWJjZA==");
    assert_eq!(encode(&Vec::new()), "");
}

#[test]
fn what_is_no_base64_or_ends_in_half_a_sample_is_refused() {
    assert_eq!(
        decode("!!!!"),
        Err(AudioError::Base64("Invalid symbol 33, offset 0.".to_string()))
    );
    assert_eq!(decode("YWJj"), Err(AudioError::OddLength));
}

#[test]
fn bytes_that_were_read_are_samples_where_none_is_left_over() {
    assert_eq!(samples(Ok(vec![0x61, 0x62])), Ok(vec![0x6261]));
    assert_eq!(samples(Ok(Vec::new())), Ok(Vec::new()));
    assert_eq!(samples(Ok(vec![0x61])), Err(AudioError::OddLength));
    assert_eq!(
        samples(Err("bad".to_string())),
        Err(AudioError::Base64("bad".to_string()))
    );
}
