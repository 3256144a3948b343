use cpal::{
    ChannelPosition, EventLoop, Format, Host, Notification, Poll, SampleFormat, SamplesRate,
    SamplesStream, UnknownTypeBuffer, Voice,
};

fn format(channels: usize, data_type: SampleFormat) -> Format {
    Format {
        channels: vec![ChannelPosition::FrontLeft; channels],
        samples_rate: SamplesRate(44100),
        data_type,
    }
}

fn stereo_float() -> Format {
    Format {
        channels: vec![ChannelPosition::FrontLeft, ChannelPosition::FrontRight],
        samples_rate: SamplesRate(44100),
        data_type: SampleFormat::F32,
    }
}

fn setup(format: &Format, max_frames: usize) -> (EventLoop, Voice, SamplesStream) {
    let mut host = Host::new();
    let endpoint = host.connect("a".to_string(), vec![format.clone()], max_frames);
    let mut event_loop = EventLoop::new();
    let (voice, stream) = Voice::new(&host, &endpoint, format, &mut event_loop).unwrap();
    (event_loop, voice, stream)
}

fn announce(event_loop: &mut EventLoop, stream: &SamplesStream, frames: usize) -> Vec<usize> {
    event_loop.run(&[Notification { stream: stream.id(), frames }])
}

fn expect_buffer(item: Poll<Option<UnknownTypeBuffer>>) -> UnknownTypeBuffer {
    match item {
        Poll::Ready(Some(buffer)) => buffer,
        Poll::Ready(None) => panic!("the stream has ended"),
        Poll::NotReady => panic!("no buffer is ready"),
    }
}

fn is_not_ready(item: Poll<Option<UnknownTypeBuffer>>) -> bool {
    matches!(item, Poll::NotReady)
}

fn is_finished(item: Poll<Option<UnknownTypeBuffer>>) -> bool {
    matches!(item, Poll::Ready(None))
}

fn finish(buffer: UnknownTypeBuffer, event_loop: &mut EventLoop) -> bool {
    match buffer {
        UnknownTypeBuffer::U16(buffer) => buffer.finish(event_loop).is_some(),
        UnknownTypeBuffer::I16(buffer) => buffer.finish(event_loop).is_some(),
        UnknownTypeBuffer::F32(buffer) => buffer.finish(event_loop).is_some(),
    }
}

fn cycle_of(buffer: &UnknownTypeBuffer) -> u64 {
    match buffer {
        UnknownTypeBuffer::U16(buffer) => buffer.cycle(),
        UnknownTypeBuffer::I16(buffer) => buffer.cycle(),
        UnknownTypeBuffer::F32(buffer) => buffer.cycle(),
    }
}

#[test]
fn stereo_float_voice_plays_silence() {
    let mut host = Host::new();
    let endpoint = host.connect("speakers".to_string(), vec![stereo_float()], 1024);
    let advertised = endpoint.get_supported_formats_list(&host).unwrap().next().unwrap();
    assert_eq!(advertised, stereo_float());
    let mut event_loop = EventLoop::new();
    let (mut voice, mut stream) =
        Voice::new(&host, &endpoint, &advertised, &mut event_loop).unwrap();
    event_loop.run(&[Notification { stream: stream.id(), frames: 441 }]);
    let buffer = expect_buffer(stream.poll(&mut event_loop));
    assert!(buffer.len() > 0);
    assert_eq!(buffer.len() % 2, 0);
    assert_eq!(buffer.len(), 882);
    assert_eq!(buffer.data_type(), SampleFormat::F32);
    match buffer {
        UnknownTypeBuffer::F32(mut buffer) => {
            buffer.fill(0.0f32.to_bits());
            let committed = buffer.finish(&mut event_loop).unwrap();
            assert_eq!(committed.len(), 882);
            assert!(committed.iter().all(|bits| f32::from_bits(*bits) == 0.0));
        }
        _ => panic!("the voice takes 32-bit floating point samples"),
    }
    voice.play();
}

#[test]
fn a_new_stream_has_no_buffer() {
    let (mut event_loop, _voice, mut stream) = setup(&stereo_float(), 64);
    assert!(is_not_ready(stream.poll(&mut event_loop)));
    assert!(is_not_ready(stream.poll(&mut event_loop)));
}

#[test]
fn a_buffer_holds_one_sample_for_each_channel_of_each_frame() {
    let (mut event_loop, _voice, mut stream) = setup(&format(6, SampleFormat::I16), 64);
    announce(&mut event_loop, &stream, 10);
    let buffer = expect_buffer(stream.poll(&mut event_loop));
    assert_eq!(buffer.len(), 60);
    assert_eq!(buffer.data_type(), SampleFormat::I16);
    assert!(matches!(buffer, UnknownTypeBuffer::I16(_)));
}

#[test]
fn the_branch_of_a_buffer_is_the_data_type_of_the_voice() {
    let (mut event_loop, _voice, mut stream) = setup(&format(1, SampleFormat::U16), 64);
    announce(&mut event_loop, &stream, 3);
    let buffer = expect_buffer(stream.poll(&mut event_loop));
    assert_eq!(buffer.data_type(), SampleFormat::U16);
    assert_eq!(buffer.len(), 3);
    assert!(matches!(buffer, UnknownTypeBuffer::U16(_)));
    let (mut event_loop, _voice, mut stream) = setup(&format(1, SampleFormat::F32), 64);
    announce(&mut event_loop, &stream, 3);
    assert!(matches!(
        expect_buffer(stream.poll(&mut event_loop)),
        UnknownTypeBuffer::F32(_)
    ));
}

#[test]
fn a_buffer_is_never_longer_than_the_device_takes() {
    let (mut event_loop, _voice, mut stream) = setup(&stereo_float(), 64);
    announce(&mut event_loop, &stream, 1000);
    let buffer = expect_buffer(stream.poll(&mut event_loop));
    assert_eq!(buffer.len(), 128);
    assert!(finish(buffer, &mut event_loop));
    announce(&mut event_loop, &stream, 64);
    let buffer = expect_buffer(stream.poll(&mut event_loop));
    assert_eq!(buffer.len(), 128);
    assert!(finish(buffer, &mut event_loop));
    announce(&mut event_loop, &stream, 63);
    let buffer = expect_buffer(stream.poll(&mut event_loop));
    assert_eq!(buffer.len(), 126);
    assert!(finish(buffer, &mut event_loop));
    announce(&mut event_loop, &stream, 1);
    let buffer = expect_buffer(stream.poll(&mut event_loop));
    assert_eq!(buffer.len(), 2);
}

#[test]
fn the_largest_buffer_fits_a_length() {
    let (event_loop, _voice, stream) = setup(&format(3, SampleFormat::I16), usize::MAX);
    assert_eq!(stream.capacity(&event_loop), (usize::MAX / 3) * 3);
    let (event_loop, _voice, stream) = setup(&format(3, SampleFormat::I16), usize::MAX / 3 + 1);
    assert_eq!(stream.capacity(&event_loop), (usize::MAX / 3) * 3);
    let (event_loop, _voice, stream) = setup(&format(3, SampleFormat::I16), usize::MAX / 3 - 1);
    assert_eq!(stream.capacity(&event_loop), (usize::MAX / 3 - 1) * 3);
    let (event_loop, _voice, stream) = setup(&format(1, SampleFormat::I16), usize::MAX);
    assert_eq!(stream.capacity(&event_loop), usize::MAX);
}

#[test]
fn capacity_is_frames_times_channels() {
    let (event_loop, _voice, stream) = setup(&format(6, SampleFormat::I16), 100);
    assert_eq!(stream.capacity(&event_loop), 600);
    let (event_loop, _voice, stream) = setup(&stereo_float(), 0);
    assert_eq!(stream.capacity(&event_loop), 0);
    assert_eq!(stream.capacity(&EventLoop::new()), 0);
}

#[test]
fn an_announcement_of_no_frames_gives_no_buffer() {
    let (mut event_loop, _voice, mut stream) = setup(&stereo_float(), 64);
    announce(&mut event_loop, &stream, 0);
    assert!(is_not_ready(stream.poll(&mut event_loop)));
    announce(&mut event_loop, &stream, 5);
    announce(&mut event_loop, &stream, 0);
    assert!(is_not_ready(stream.poll(&mut event_loop)));
}

#[test]
fn a_device_that_takes_nothing_gives_no_buffer() {
    let (mut event_loop, _voice, mut stream) = setup(&stereo_float(), 0);
    announce(&mut event_loop, &stream, 100);
    assert!(is_not_ready(stream.poll(&mut event_loop)));
}

#[test]
fn the_last_announcement_counts() {
    let (mut event_loop, _voice, mut stream) = setup(&stereo_float(), 64);
    let id = stream.id();
    event_loop.run(&[
        Notification { stream: id, frames: 10 },
        Notification { stream: id, frames: 20 },
        Notification { stream: id, frames: 7 },
    ]);
    assert_eq!(expect_buffer(stream.poll(&mut event_loop)).len(), 14);
}

#[test]
fn announcements_for_unknown_streams_are_passed_over() {
    let (mut event_loop, _voice, mut stream) = setup(&stereo_float(), 64);
    let wake = event_loop.run(&[
        Notification { stream: 1, frames: 10 },
        Notification { stream: usize::MAX, frames: 10 },
    ]);
    assert!(wake.is_empty());
    assert!(is_not_ready(stream.poll(&mut event_loop)));
}

#[test]
fn no_second_buffer_before_the_first_is_finished() {
    let (mut event_loop, _voice, mut stream) = setup(&stereo_float(), 64);
    announce(&mut event_loop, &stream, 8);
    let first = expect_buffer(stream.poll(&mut event_loop));
    assert!(is_not_ready(stream.poll(&mut event_loop)));
    announce(&mut event_loop, &stream, 4);
    assert!(is_not_ready(stream.poll(&mut event_loop)));
    assert!(finish(first, &mut event_loop));
    let second = expect_buffer(stream.poll(&mut event_loop));
    assert_eq!(second.len(), 8);
    assert_eq!(cycle_of(&second), 1);
}

#[test]
fn after_a_commit_nothing_comes_before_the_next_announcement() {
    let (mut event_loop, _voice, mut stream) = setup(&stereo_float(), 64);
    announce(&mut event_loop, &stream, 8);
    let first = expect_buffer(stream.poll(&mut event_loop));
    assert!(finish(first, &mut event_loop));
    assert!(is_not_ready(stream.poll(&mut event_loop)));
}

#[test]
fn buffers_carry_rising_cycle_numbers() {
    let (mut event_loop, _voice, mut stream) = setup(&stereo_float(), 64);
    let mut last = None;
    for turn in 0..50u64 {
        announce(&mut event_loop, &stream, 1 + (turn as usize % 7));
        let buffer = expect_buffer(stream.poll(&mut event_loop));
        let cycle = cycle_of(&buffer);
        assert_eq!(cycle, turn);
        if let Some(before) = last {
            assert!(before < cycle);
        }
        last = Some(cycle);
        assert_eq!(buffer.len(), 2 * (1 + (turn as usize % 7)));
        assert!(finish(buffer, &mut event_loop));
    }
}

#[test]
fn every_buffer_is_within_the_capacity_of_its_voice() {
    let (mut event_loop, _voice, mut stream) = setup(&format(4, SampleFormat::U16), 16);
    for frames in [1usize, 15, 16, 17, 1000, 3, usize::MAX] {
        announce(&mut event_loop, &stream, frames);
        let buffer = expect_buffer(stream.poll(&mut event_loop));
        assert!(buffer.len() > 0);
        assert!(buffer.len() <= 64);
        assert!(buffer.len() <= stream.capacity(&event_loop));
        assert_eq!(buffer.len() % 4, 0);
        assert_eq!(buffer.len(), 4 * frames.min(16));
        assert!(finish(buffer, &mut event_loop));
    }
}

#[test]
fn finish_returns_what_was_written() {
    let (mut event_loop, _voice, mut stream) = setup(&format(2, SampleFormat::I16), 64);
    announce(&mut event_loop, &stream, 3);
    match expect_buffer(stream.poll(&mut event_loop)) {
        UnknownTypeBuffer::I16(mut buffer) => {
            assert_eq!(buffer.len(), 6);
            assert!(buffer.write(0, 11));
            assert!(buffer.write(5, -7));
            assert!(buffer.write(2, 3));
            assert!(buffer.write(2, 4));
            assert!(!buffer.write(6, 99));
            assert!(!buffer.write(usize::MAX, 99));
            assert_eq!(buffer.len(), 6);
            assert_eq!(buffer.finish(&mut event_loop), Some(vec![11, 0, 4, 0, 0, -7]));
        }
        _ => panic!("the voice takes signed samples"),
    }
}

#[test]
fn an_untouched_buffer_commits_zeros() {
    let (mut event_loop, _voice, mut stream) = setup(&format(2, SampleFormat::U16), 64);
    announce(&mut event_loop, &stream, 2);
    match expect_buffer(stream.poll(&mut event_loop)) {
        UnknownTypeBuffer::U16(buffer) => {
            assert_eq!(buffer.finish(&mut event_loop), Some(vec![0, 0, 0, 0]));
        }
        _ => panic!("the voice takes unsigned samples"),
    }
}

#[test]
fn fill_writes_every_sample() {
    let (mut event_loop, _voice, mut stream) = setup(&format(1, SampleFormat::U16), 64);
    announce(&mut event_loop, &stream, 5);
    match expect_buffer(stream.poll(&mut event_loop)) {
        UnknownTypeBuffer::U16(mut buffer) => {
            buffer.write(1, 9);
            buffer.fill(32768);
            assert_eq!(buffer.len(), 5);
            assert_eq!(buffer.finish(&mut event_loop), Some(vec![32768; 5]));
        }
        _ => panic!("the voice takes unsigned samples"),
    }
}

#[test]
fn write_from_copies_what_fits() {
    let (mut event_loop, _voice, mut stream) = setup(&format(1, SampleFormat::I16), 64);
    let source: Vec<i16> = vec![1, 2, 3, 4, 5, 6, 7];
    let mut sent = 0;
    let mut heard: Vec<i16> = Vec::new();
    for frames in [3usize, 2, 4] {
        announce(&mut event_loop, &stream, frames);
        match expect_buffer(stream.poll(&mut event_loop)) {
            UnknownTypeBuffer::I16(mut buffer) => {
                let written = buffer.write_from(&source[sent..]);
                assert_eq!(written, frames.min(source.len() - sent));
                sent += written;
                heard.extend(buffer.finish(&mut event_loop).unwrap());
            }
            _ => panic!("the voice takes signed samples"),
        }
    }
    assert_eq!(sent, 7);
    assert_eq!(heard, vec![1, 2, 3, 4, 5, 6, 7, 0, 0]);
}

#[test]
fn write_from_an_empty_source_writes_nothing() {
    let (mut event_loop, _voice, mut stream) = setup(&format(1, SampleFormat::I16), 64);
    announce(&mut event_loop, &stream, 2);
    match expect_buffer(stream.poll(&mut event_loop)) {
        UnknownTypeBuffer::I16(mut buffer) => {
            buffer.fill(5);
            assert_eq!(buffer.write_from(&[]), 0);
            assert_eq!(buffer.write_from(&[8]), 1);
            assert_eq!(buffer.finish(&mut event_loop), Some(vec![8, 5]));
        }
        _ => panic!("the voice takes signed samples"),
    }
}

#[test]
fn writing_commits_nothing() {
    let (mut event_loop, _voice, mut stream) = setup(&format(1, SampleFormat::I16), 64);
    announce(&mut event_loop, &stream, 2);
    match expect_buffer(stream.poll(&mut event_loop)) {
        UnknownTypeBuffer::I16(mut buffer) => {
            buffer.write(0, 1);
            buffer.fill(2);
            buffer.write_from(&[3, 4]);
            // Still in flight: the stream hands out nothing else.
            announce(&mut event_loop, &stream, 2);
            assert!(is_not_ready(stream.poll(&mut event_loop)));
            assert_eq!(buffer.finish(&mut event_loop), Some(vec![3, 4]));
            assert_eq!(cycle_of(&expect_buffer(stream.poll(&mut event_loop))), 1);
        }
        _ => panic!("the voice takes signed samples"),
    }
}

#[test]
fn a_buffer_of_another_loop_is_not_committed() {
    let (mut event_loop, _voice, mut stream) = setup(&stereo_float(), 64);
    let (mut other_loop, _other_voice, mut other_stream) = setup(&stereo_float(), 64);
    announce(&mut event_loop, &stream, 2);
    announce(&mut other_loop, &other_stream, 2);
    let buffer = expect_buffer(stream.poll(&mut event_loop));
    assert!(finish(buffer, &mut event_loop));
    announce(&mut event_loop, &stream, 2);
    let second = expect_buffer(stream.poll(&mut event_loop));
    assert_eq!(cycle_of(&second), 1);
    // The other loop waits for nothing on that stream, and then for cycle 0.
    let mut empty_loop = EventLoop::new();
    assert!(!finish(second, &mut empty_loop));
    let other = expect_buffer(other_stream.poll(&mut other_loop));
    assert_eq!(cycle_of(&other), 0);
    assert!(is_not_ready(stream.poll(&mut event_loop)));
    assert!(finish(other, &mut other_loop));
}

#[test]
fn a_buffer_with_the_wrong_cycle_is_not_committed() {
    let (mut first_loop, _v1, mut first_stream) = setup(&stereo_float(), 64);
    let (mut second_loop, _v2, mut second_stream) = setup(&stereo_float(), 64);
    announce(&mut first_loop, &first_stream, 2);
    let zero = expect_buffer(first_stream.poll(&mut first_loop));
    assert!(finish(zero, &mut first_loop));
    announce(&mut first_loop, &first_stream, 2);
    let one = expect_buffer(first_stream.poll(&mut first_loop));
    announce(&mut second_loop, &second_stream, 2);
    let wanted = expect_buffer(second_stream.poll(&mut second_loop));
    // The second loop waits for cycle 0 of its stream, not for cycle 1.
    assert!(!finish(one, &mut second_loop));
    assert!(is_not_ready(second_stream.poll(&mut second_loop)));
    assert!(finish(wanted, &mut second_loop));
}

#[test]
fn a_stream_that_the_loop_does_not_hold_has_ended() {
    let (_event_loop, _voice, mut stream) = setup(&stereo_float(), 64);
    let mut empty = EventLoop::new();
    assert!(is_finished(stream.poll(&mut empty)));
    stream.schedule(&mut empty);
    assert!(empty.run(&[]).is_empty());
    assert_eq!(empty.streams(), 0);
}

#[test]
fn run_wakes_the_streams_that_wait_and_can_have_a_buffer() {
    let mut host = Host::new();
    let endpoint = host.connect("a".to_string(), vec![stereo_float()], 64);
    let mut event_loop = EventLoop::new();
    let (_v0, mut s0) = Voice::new(&host, &endpoint, &stereo_float(), &mut event_loop).unwrap();
    let (_v1, mut s1) = Voice::new(&host, &endpoint, &stereo_float(), &mut event_loop).unwrap();
    let (_v2, mut s2) = Voice::new(&host, &endpoint, &stereo_float(), &mut event_loop).unwrap();
    // Nobody waits yet.
    assert!(event_loop.run(&[Notification { stream: 1, frames: 4 }]).is_empty());
    // Streams 0 and 2 find nothing and wait; stream 1 gets its buffer.
    assert!(is_not_ready(s0.poll(&mut event_loop)));
    assert!(is_not_ready(s2.poll(&mut event_loop)));
    let held = expect_buffer(s1.poll(&mut event_loop));
    assert!(event_loop.run(&[]).is_empty());
    let wake = event_loop.run(&[
        Notification { stream: 2, frames: 4 },
        Notification { stream: 0, frames: 4 },
        Notification { stream: 1, frames: 4 },
    ]);
    assert_eq!(wake, vec![0, 2]);
    // Woken once: not again before they wait again.
    assert!(event_loop.run(&[]).is_empty());
    assert_eq!(expect_buffer(s0.poll(&mut event_loop)).len(), 8);
    assert_eq!(expect_buffer(s2.poll(&mut event_loop)).len(), 8);
    // Stream 1 waits while its buffer is out, and is woken when it is back.
    assert!(is_not_ready(s1.poll(&mut event_loop)));
    assert!(event_loop.run(&[]).is_empty());
    assert!(finish(held, &mut event_loop));
    assert_eq!(event_loop.run(&[]), vec![1]);
    assert_eq!(cycle_of(&expect_buffer(s1.poll(&mut event_loop))), 1);
}

#[test]
fn schedule_makes_a_stream_wait_without_polling() {
    let (mut event_loop, _voice, mut stream) = setup(&stereo_float(), 64);
    assert!(announce(&mut event_loop, &stream, 4).is_empty());
    stream.schedule(&mut event_loop);
    assert_eq!(event_loop.run(&[]), vec![0]);
    assert!(event_loop.run(&[]).is_empty());
    stream.schedule(&mut event_loop);
    stream.schedule(&mut event_loop);
    assert_eq!(event_loop.run(&[]), vec![0]);
    assert_eq!(expect_buffer(stream.poll(&mut event_loop)).len(), 8);
}

#[test]
fn a_delivery_ends_the_wait() {
    let (mut event_loop, _voice, mut stream) = setup(&stereo_float(), 64);
    stream.schedule(&mut event_loop);
    // Announced outside a turn of waking: polled before the reactor looks.
    let wake = announce(&mut event_loop, &stream, 4);
    assert_eq!(wake, vec![0]);
    stream.schedule(&mut event_loop);
    let buffer = expect_buffer(stream.poll(&mut event_loop));
    assert!(finish(buffer, &mut event_loop));
    assert!(announce(&mut event_loop, &stream, 4).is_empty());
}

#[test]
fn streams_of_one_loop_do_not_wait_for_each_other() {
    let mut host = Host::new();
    let endpoint = host.connect(
        "a".to_string(),
        vec![stereo_float(), format(1, SampleFormat::I16)],
        64,
    );
    let mut event_loop = EventLoop::new();
    let (_v0, mut s0) = Voice::new(&host, &endpoint, &stereo_float(), &mut event_loop).unwrap();
    let (_v1, mut s1) =
        Voice::new(&host, &endpoint, &format(1, SampleFormat::I16), &mut event_loop).unwrap();
    event_loop.run(&[
        Notification { stream: s0.id(), frames: 4 },
        Notification { stream: s1.id(), frames: 5 },
    ]);
    let held = expect_buffer(s0.poll(&mut event_loop));
    for cycle in 0..3u64 {
        let buffer = expect_buffer(s1.poll(&mut event_loop));
        assert_eq!(cycle_of(&buffer), cycle);
        assert_eq!(buffer.len(), 5);
        assert!(finish(buffer, &mut event_loop));
        event_loop.run(&[Notification { stream: s1.id(), frames: 5 }]);
    }
    assert_eq!(cycle_of(&held), 0);
    assert!(finish(held, &mut event_loop));
}
