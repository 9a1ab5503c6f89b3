use segmux::error::Error;
use segmux::input::{Input, Medium, Parameters, Rational, SourceStream};
use segmux::output::{
    plan_streams, MuxError, Output, OutputStream, PacketWrite, AVERROR_BAD_REQUEST,
    UNKNOWN_POSITION,
};

fn declared(medium: Medium, denominator: i32, codec_tag: u32) -> SourceStream {
    SourceStream {
        time_base: Rational { numerator: 1, denominator },
        parameter: Parameters { medium, codec_tag },
    }
}

fn base(denominator: i32) -> Rational {
    Rational { numerator: 1, denominator }
}

fn camera_source() -> Input {
    Input::new(
        &vec![
            declared(Medium::Data, 1, 5),
            declared(Medium::Video, 90_000, 0x3163_7661),
            declared(Medium::Audio, 48_000, 0x6134_706d),
        ],
        vec![],
    )
}

fn open(serial: u64, time_bases: Vec<Rational>) -> Output {
    Output::new("rec/a.mkv".to_string(), serial, &camera_source(), Some(time_bases)).unwrap()
}

#[test]
fn streams_of_a_file_follow_the_mappings_with_the_tag_cleared() {
    let table = plan_streams(&camera_source());
    assert_eq!(
        table,
        vec![
            OutputStream {
                source: 1,
                parameter: Parameters { medium: Medium::Video, codec_tag: 0 },
            },
            OutputStream {
                source: 2,
                parameter: Parameters { medium: Medium::Audio, codec_tag: 0 },
            },
        ]
    );
}

#[test]
fn file_of_a_source_without_stored_streams_has_none() {
    let input = Input::new(&vec![declared(Medium::Data, 1, 1)], vec![]);
    assert!(plan_streams(&input).is_empty());
    let output = Output::new("n".to_string(), 0, &input, Some(vec![])).unwrap();
    assert_eq!(output.count_streams(), 0);
}

#[test]
fn session_exists_once_the_header_is_written() {
    let output = open(3, vec![base(1_000), base(1_000)]);
    assert_eq!(output.serial(), 3);
    assert_eq!(output.name(), "rec/a.mkv");
    assert_eq!(output.count_streams(), 2);
}

#[test]
fn session_fails_where_the_header_failed() {
    let result = Output::new("rec/a.mkv".to_string(), 0, &camera_source(), None);
    assert_eq!(result.err(), Some(Error::FailedToOpen));
}

#[test]
fn session_fails_where_the_writer_has_other_streams_than_it_was_given() {
    let few = Output::new("rec/a.mkv".to_string(), 0, &camera_source(), Some(vec![base(1)]));
    assert_eq!(few.err(), Some(Error::FailedToOpen));
    let many = Output::new(
        "rec/a.mkv".to_string(),
        0,
        &camera_source(),
        Some(vec![base(1), base(2), base(3)]),
    );
    assert_eq!(many.err(), Some(Error::FailedToOpen));
}

#[test]
fn write_rescales_to_the_time_base_of_the_file() {
    let output = open(4, vec![base(1_000), base(44_100)]);
    assert_eq!(
        output.write(0, base(90_000)),
        PacketWrite {
            serial: 4,
            stream: 0,
            from: base(90_000),
            to: base(1_000),
            position: -1,
        }
    );
    assert_eq!(
        output.write(1, base(48_000)),
        PacketWrite {
            serial: 4,
            stream: 1,
            from: base(48_000),
            to: base(44_100),
            position: UNKNOWN_POSITION,
        }
    );
}

#[test]
fn write_that_was_done_is_done() {
    let output = open(0, vec![base(1), base(1)]);
    assert_eq!(output.write_packet(Ok(())), Ok(()));
}

#[test]
fn write_that_was_declined_for_the_benign_reason_is_done() {
    let output = open(0, vec![base(1), base(1)]);
    assert_eq!(AVERROR_BAD_REQUEST, 22);
    assert_eq!(output.write_packet(Err(MuxError::Other { errno: 22 })), Ok(()));
}

#[test]
fn write_that_failed_otherwise_is_a_broken_multiplex() {
    let output = open(0, vec![base(1), base(1)]);
    assert_eq!(output.write_packet(Err(MuxError::Other { errno: 5 })), Err(Error::BrokenMux));
    assert_eq!(output.write_packet(Err(MuxError::Other { errno: -22 })), Err(Error::BrokenMux));
    assert_eq!(output.write_packet(Err(MuxError::Other { errno: 0 })), Err(Error::BrokenMux));
    assert_eq!(output.write_packet(Err(MuxError::Other { errno: 21 })), Err(Error::BrokenMux));
    assert_eq!(output.write_packet(Err(MuxError::Other { errno: 23 })), Err(Error::BrokenMux));
    assert_eq!(output.write_packet(Err(MuxError::Coded)), Err(Error::BrokenMux));
}

#[test]
fn close_takes_the_session_and_gives_the_writer_to_end() {
    let output = open(9, vec![base(1), base(1)]);
    // `close` takes the session by value: after this line there is no
    // session left to write to or to close again.
    let serial = output.close();
    assert_eq!(serial, 9);
}
