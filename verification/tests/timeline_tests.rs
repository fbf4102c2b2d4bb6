use qlipq::keys::EditorCommand;
use qlipq::timeline::{
    command_action, format_timestamp, frame_step_us, parse_timestamp, play_start, playback_tick, seek_target,
    set_in_point, set_out_point, skip_target, PollOutcome, TickResult, TransportAction,
};

#[test]
fn timestamp_round_trip() {
    assert_eq!(format_timestamp(65_500_000), "1:05.500");
    assert_eq!(format_timestamp(3_661_000_000), "1:01:01.000");
    assert_eq!(parse_timestamp("90"), Some(90_000_000));
    assert_eq!(parse_timestamp("1:05.5"), Some(65_500_000));
    assert_eq!(parse_timestamp("1:01:01"), Some(3_661_000_000));
    assert_eq!(parse_timestamp("  2:00 "), Some(120_000_000));
    assert_eq!(parse_timestamp("nope"), None);
    assert_eq!(parse_timestamp(""), None);
}

#[test]
fn timestamp_formatting_rounds_and_clamps() {
    assert_eq!(format_timestamp(-5), "0:00.000");
    assert_eq!(format_timestamp(1_999_500), "0:02.000");
    assert_eq!(format_timestamp(59_999), "0:00.060");
    assert_eq!(parse_timestamp("1:-5"), None);
    assert_eq!(parse_timestamp("::"), None);
}

#[test]
fn seek_and_skip_clamp_into_the_clip() {
    assert_eq!(seek_target(5_000_000, Some(10_000_000)), 5_000_000);
    assert_eq!(seek_target(15_000_000, Some(10_000_000)), 10_000_000);
    assert_eq!(seek_target(-3, Some(10_000_000)), 0);
    assert_eq!(seek_target(7, None), 7);
    assert_eq!(skip_target(1_000_000, -5_000_000, Some(10_000_000)), 0);
    assert_eq!(skip_target(8_000_000, 5_000_000, Some(10_000_000)), 10_000_000);
    assert_eq!(skip_target(8_000_000, 5_000_000, None), 0);
}

#[test]
fn in_and_out_points_keep_a_gap() {
    assert_eq!(set_in_point(9_950_000, 10_000_000), 9_900_000);
    assert_eq!(set_in_point(2_000_000, 10_000_000), 2_000_000);
    assert_eq!(set_in_point(500, 50_000), 0);
    assert_eq!(set_out_point(1_000_000, 1_000_000, 5_000_000, Some(20_000_000)), 1_100_000);
    assert_eq!(set_out_point(30_000_000, 0, 5_000_000, Some(20_000_000)), 20_000_000);
    assert_eq!(set_out_point(30_000_000, 0, 5_000_000, None), 5_000_000);
}

#[test]
fn commands_map_to_transport_actions() {
    assert_eq!(frame_step_us(60_000), 16_667);
    assert_eq!(frame_step_us(0), 1_000_000);
    assert_eq!(command_action(EditorCommand::FrameBack, 30_000, 9), TransportAction::Skip(-33_333));
    assert_eq!(command_action(EditorCommand::JumpForward, 30_000, 9), TransportAction::Skip(5_000_000));
    assert_eq!(command_action(EditorCommand::GoToEnd, 30_000, 9), TransportAction::Seek(9));
    assert_eq!(command_action(EditorCommand::GoToStart, 30_000, 9), TransportAction::Seek(0));
    assert_eq!(command_action(EditorCommand::Export, 30_000, 9), TransportAction::Export);
}

#[test]
fn playback_restarts_from_the_top_at_the_end() {
    assert_eq!(play_start(10_000_000, 10_000_000), 0);
    assert_eq!(play_start(4_000_000, 10_000_000), 4_000_000);
    assert_eq!(play_start(4_000_000, 0), 4_000_000);
}

#[test]
fn playback_ticks_advance_and_stop_at_the_end() {
    assert_eq!(
        playback_tick(1_000_000, PollOutcome::Frame, Some(1_200_000), 30_000, 10_000_000),
        TickResult { current_us: 1_200_000, playing: true }
    );
    assert_eq!(
        playback_tick(1_000_000, PollOutcome::Frame, None, 50_000, 10_000_000),
        TickResult { current_us: 1_020_000, playing: true }
    );
    assert_eq!(
        playback_tick(1_000_000, PollOutcome::Empty, None, 50_000, 10_000_000),
        TickResult { current_us: 1_000_000, playing: true }
    );
    assert_eq!(
        playback_tick(9_990_000, PollOutcome::Frame, None, 50_000, 10_000_000),
        TickResult { current_us: 10_000_000, playing: false }
    );
    assert_eq!(
        playback_tick(3_000_000, PollOutcome::Ended, None, 50_000, 10_000_000),
        TickResult { current_us: 10_000_000, playing: false }
    );
    assert_eq!(
        playback_tick(3_000_000, PollOutcome::Ended, None, 50_000, 0),
        TickResult { current_us: 3_000_000, playing: false }
    );
}
