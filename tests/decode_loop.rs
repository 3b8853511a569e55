use streamplay::decode::{
    select_track, DecodeAction, DecodeEvent, DecodeLoop, PacketAction, PacketEvent, Phase,
    TrackInfo,
};
use streamplay::playback::PlaybackQueue;
use streamplay::session::{output_format, CompletionState, DEFAULT_CHANNELS, DEFAULT_SAMPLE_RATE};

fn decoding_loop(track: u32) -> DecodeLoop {
    let mut control = DecodeLoop::new(0);
    assert!(control.on_buffered(0, false));
    let tracks = vec![TrackInfo { id: track, decodable: true }];
    assert_eq!(control.choose_track(&tracks), Some(track));
    control
}

#[test]
fn waits_for_threshold_then_decodes() {
    let mut control = DecodeLoop::new(100);
    assert_eq!(control.phase(), Phase::WaitingForThreshold);
    assert_eq!(control.on_packet(PacketEvent::Packet(1), false), PacketAction::Wait);
    assert!(!control.on_buffered(99, false));
    assert_eq!(control.phase(), Phase::WaitingForThreshold);
    assert!(control.on_buffered(100, false));
    assert_eq!(control.phase(), Phase::Decoding);
}

#[test]
fn short_stream_starts_once_finished() {
    let mut control = DecodeLoop::new(1000);
    assert!(!control.on_buffered(10, false));
    assert!(control.on_buffered(10, true));
    assert_eq!(control.phase(), Phase::Decoding);
}

#[test]
fn end_of_stream_with_no_bytes_completes_directly() {
    let mut control = decoding_loop(1);
    assert_eq!(control.on_packet(PacketEvent::NotYet, false), PacketAction::Retry);
    assert_eq!(control.on_packet(PacketEvent::EndOfStream, true), PacketAction::Finish);
    assert_eq!(control.phase(), Phase::Draining);
    assert!(!control.is_decode_complete());
    assert!(control.complete());
    assert_eq!(control.phase(), Phase::Complete);
    assert!(control.is_decode_complete());
}

#[test]
fn end_of_stream_before_producer_finishes_is_retried() {
    let mut control = decoding_loop(1);
    assert_eq!(control.on_packet(PacketEvent::EndOfStream, false), PacketAction::Retry);
    assert_eq!(control.phase(), Phase::Decoding);
    assert!(!control.complete());
    assert_eq!(control.phase(), Phase::Decoding);
}

#[test]
fn corrupt_packet_is_skipped_and_decoding_goes_on() {
    let mut control = decoding_loop(2);
    let mut queue = PlaybackQueue::new();
    assert_eq!(control.on_packet(PacketEvent::Packet(2), false), PacketAction::Decode);
    match control.on_decoded(DecodeEvent::Decoded(vec![1, 2])) {
        DecodeAction::Deliver(v) => queue.push(v),
        _ => panic!("decoded samples not delivered"),
    }
    assert_eq!(control.on_packet(PacketEvent::Packet(2), false), PacketAction::Decode);
    assert!(matches!(control.on_decoded(DecodeEvent::<i32>::Malformed), DecodeAction::Skip));
    assert_eq!(control.phase(), Phase::Decoding);
    assert!(!control.is_decode_complete());
    assert_eq!(control.on_packet(PacketEvent::Packet(2), false), PacketAction::Decode);
    assert!(matches!(control.on_decoded(DecodeEvent::<i32>::IoFailure), DecodeAction::Skip));
    assert_eq!(control.on_packet(PacketEvent::Packet(2), true), PacketAction::Decode);
    match control.on_decoded(DecodeEvent::Decoded(vec![3])) {
        DecodeAction::Deliver(v) => queue.push(v),
        _ => panic!("decoded samples not delivered"),
    }
    assert!(!control.is_decode_complete());
    assert_eq!(control.on_packet(PacketEvent::EndOfStream, true), PacketAction::Finish);
    assert!(control.complete());
    let mut out = [0i32; 4];
    assert_eq!(queue.fill(&mut out, 0), 3);
    assert_eq!(out, [1, 2, 3, 0]);
}

#[test]
fn chunks_reach_the_queue_in_packet_order() {
    let mut control = decoding_loop(5);
    let mut queue = PlaybackQueue::new();
    let packets: Vec<Vec<i32>> = vec![vec![1, 2, 3], vec![4], vec![5, 6]];
    for p in packets {
        assert_eq!(control.on_packet(PacketEvent::Packet(5), false), PacketAction::Decode);
        match control.on_decoded(DecodeEvent::Decoded(p)) {
            DecodeAction::Deliver(v) => queue.push(v),
            _ => panic!("decoded samples not delivered"),
        }
    }
    let mut out = [0i32; 6];
    assert_eq!(queue.fill(&mut out, 0), 6);
    assert_eq!(out, [1, 2, 3, 4, 5, 6]);
}

#[test]
fn packets_of_other_tracks_are_discarded() {
    let mut control = decoding_loop(3);
    assert_eq!(control.on_packet(PacketEvent::Packet(4), false), PacketAction::Discard);
    assert_eq!(control.on_packet(PacketEvent::Packet(3), false), PacketAction::Decode);
    assert_eq!(control.phase(), Phase::Decoding);
}

#[test]
fn read_error_aborts() {
    let mut control = decoding_loop(1);
    assert_eq!(control.on_packet(PacketEvent::Failed, false), PacketAction::Abort);
    assert_eq!(control.phase(), Phase::Aborted);
    assert_eq!(control.on_packet(PacketEvent::Packet(1), false), PacketAction::Abort);
    assert!(!control.complete());
}

#[test]
fn fatal_decoder_error_aborts() {
    let mut control = decoding_loop(1);
    assert!(matches!(control.on_decoded(DecodeEvent::<i32>::Failed), DecodeAction::Abort));
    assert_eq!(control.phase(), Phase::Aborted);
    assert!(matches!(control.on_decoded(DecodeEvent::Decoded(vec![1])), DecodeAction::Abort));
}

#[test]
fn gone_consumer_stops_the_loop() {
    let mut control = decoding_loop(1);
    control.on_send_failed();
    assert_eq!(control.phase(), Phase::Aborted);
    assert_eq!(control.on_packet(PacketEvent::EndOfStream, true), PacketAction::Abort);
    assert!(!control.is_decode_complete());
}

#[test]
fn first_decodable_track_is_selected() {
    let tracks = vec![
        TrackInfo { id: 7, decodable: false },
        TrackInfo { id: 9, decodable: true },
        TrackInfo { id: 11, decodable: true },
    ];
    assert_eq!(select_track(&tracks), Some(9));
    assert_eq!(select_track(&vec![TrackInfo { id: 7, decodable: false }]), None);
    assert_eq!(select_track(&Vec::new()), None);
}

#[test]
fn stream_without_decodable_track_aborts() {
    let mut control = DecodeLoop::new(0);
    assert!(control.on_buffered(0, false));
    assert_eq!(control.choose_track(&vec![TrackInfo { id: 1, decodable: false }]), None);
    assert_eq!(control.phase(), Phase::Aborted);
    assert_eq!(control.track(), None);
}

#[test]
fn output_format_falls_back_to_defaults() {
    assert_eq!(output_format(Some(44100), Some(1)), (44100, 1));
    assert_eq!(output_format(None, None), (DEFAULT_SAMPLE_RATE, DEFAULT_CHANNELS));
    assert_eq!(output_format(None, None), (48000, 2));
    assert_eq!(output_format(Some(22050), None), (22050, 2));
}

#[test]
fn session_ends_only_when_all_three_signals_hold() {
    let mut state = CompletionState::new();
    assert!(!state.all_done());
    state.observe_queue(true);
    assert!(!state.is_playback_drained());
    state.mark_download_complete();
    state.mark_decode_complete();
    assert!(!state.all_done());
    state.observe_queue(false);
    assert!(!state.is_playback_drained());
    state.observe_queue(true);
    assert!(state.is_playback_drained());
    assert!(state.all_done());
    state.observe_queue(false);
    assert!(state.is_playback_drained());
    state.mark_download_complete();
    assert!(state.is_download_complete() && state.is_decode_complete());
}
