use segmux::input::{Input, InputStream, Medium, Parameters, Rational, SourceStream};

fn declared(medium: Medium, denominator: i32, codec_tag: u32) -> SourceStream {
    SourceStream {
        time_base: Rational { numerator: 1, denominator },
        parameter: Parameters { medium, codec_tag },
    }
}

fn pair(key: &str, value: &str) -> (String, String) {
    (key.to_string(), value.to_string())
}

#[test]
fn audio_video_and_subtitles_are_stored() {
    let streams = vec![
        declared(Medium::Video, 90_000, 7),
        declared(Medium::Audio, 48_000, 8),
        declared(Medium::Subtitle, 1_000, 9),
    ];
    let input = Input::new(&streams, vec![]);
    assert_eq!(input.len(), 3);
    assert_eq!(input.count_valid_streams(), 3);
    assert_eq!(
        input.get(0),
        Some(InputStream::Valid {
            mapping: 0,
            time_base: Rational { numerator: 1, denominator: 90_000 },
            parameter: Parameters { medium: Medium::Video, codec_tag: 7 },
        })
    );
    assert_eq!(
        input.get(1),
        Some(InputStream::Valid {
            mapping: 1,
            time_base: Rational { numerator: 1, denominator: 48_000 },
            parameter: Parameters { medium: Medium::Audio, codec_tag: 8 },
        })
    );
    assert_eq!(
        input.get(2),
        Some(InputStream::Valid {
            mapping: 2,
            time_base: Rational { numerator: 1, denominator: 1_000 },
            parameter: Parameters { medium: Medium::Subtitle, codec_tag: 9 },
        })
    );
}

#[test]
fn data_attachments_and_unknown_streams_are_left_out() {
    let streams = vec![
        declared(Medium::Data, 1, 0),
        declared(Medium::Attachment, 1, 0),
        declared(Medium::Unknown, 1, 0),
    ];
    let input = Input::new(&streams, vec![]);
    assert_eq!(input.len(), 3);
    assert_eq!(input.count_valid_streams(), 0);
    assert_eq!(input.get(0), Some(InputStream::Invalid));
    assert_eq!(input.get(1), Some(InputStream::Invalid));
    assert_eq!(input.get(2), Some(InputStream::Invalid));
}

#[test]
fn mappings_skip_the_streams_that_are_left_out() {
    let streams = vec![
        declared(Medium::Data, 1, 0),
        declared(Medium::Video, 90_000, 1),
        declared(Medium::Unknown, 1, 0),
        declared(Medium::Attachment, 1, 0),
        declared(Medium::Audio, 44_100, 2),
        declared(Medium::Data, 1, 0),
        declared(Medium::Subtitle, 1_000, 3),
        declared(Medium::Video, 25, 4),
    ];
    let input = Input::new(&streams, vec![]);
    assert_eq!(input.count_valid_streams(), 4);
    let mut mappings = vec![];
    for index in 0..input.len() {
        match input.get(index).unwrap() {
            InputStream::Valid { mapping, time_base, parameter } => {
                assert_eq!(time_base, streams[index].time_base);
                assert_eq!(parameter, streams[index].parameter);
                mappings.push((index, mapping));
            }
            InputStream::Invalid => {}
        }
    }
    assert_eq!(mappings, vec![(1, 0), (4, 1), (6, 2), (7, 3)]);
}

#[test]
fn source_without_streams_has_no_entries() {
    let input = Input::new(&vec![], vec![]);
    assert_eq!(input.len(), 0);
    assert_eq!(input.count_valid_streams(), 0);
    assert_eq!(input.get(0), None);
}

#[test]
fn entry_beyond_the_source_is_none() {
    let input = Input::new(&vec![declared(Medium::Video, 25, 0)], vec![]);
    assert!(input.get(0).is_some());
    assert_eq!(input.get(1), None);
    assert_eq!(input.get(usize::MAX), None);
}

#[test]
fn metadata_is_kept_as_it_came() {
    let metadata = vec![pair("title", "Gate"), pair("comment", ""), pair("title", "again")];
    let input = Input::new(&vec![], metadata.clone());
    assert_eq!(input.metadata(), &metadata);
    assert_eq!(input.copy_metadata(), metadata);
    let empty = Input::new(&vec![], vec![]);
    assert!(empty.metadata().is_empty());
    assert!(empty.copy_metadata().is_empty());
}
