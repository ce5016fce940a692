use le_resampler::audio::{
    audio_action, command_outcome, play_command, shutdown_command, stop_command, AudioAction, AudioCmd,
    AudioPlayer, COMMAND_QUEUE_CAPACITY,
};

#[test]
fn audio_player_new_succeeds() {
    let (_player, _commands) = AudioPlayer::channel();
}

#[test]
fn audio_player_play_executes_send_path() {
    let (p, _commands) = AudioPlayer::channel();
    let _ = p.play("irrelevant.wav".to_string());
}

#[test]
fn audio_player_stop_executes_send_path() {
    let (p, _commands) = AudioPlayer::channel();
    let _ = p.stop();
}

#[test]
fn audio_player_drop_no_panic() {
    let (p, _commands) = AudioPlayer::channel();
    p.shutdown();
    drop(p);
}

#[test]
fn commands_reach_the_audio_thread_in_order() {
    let (p, commands) = AudioPlayer::channel();
    assert!(p.play("a.wav".to_string()).is_ok());
    assert!(p.stop().is_ok());
    p.shutdown();
    match commands.recv().unwrap() {
        AudioCmd::Play(path) => assert_eq!(path, "a.wav"),
        other => panic!("unexpected {:?}", other),
    }
    assert!(matches!(commands.recv().unwrap(), AudioCmd::Stop));
    assert!(matches!(commands.recv().unwrap(), AudioCmd::Shutdown));
}

#[test]
fn full_queue_refuses_with_message() {
    let (p, _commands) = AudioPlayer::channel();
    for _ in 0..COMMAND_QUEUE_CAPACITY {
        assert!(p.stop().is_ok());
    }
    let err = p.play("late.wav".to_string()).unwrap_err();
    assert!(err.starts_with("Audio channel error: "));
    assert!(err.len() > "Audio channel error: ".len());
}

#[test]
fn closed_queue_refuses_with_message() {
    let (p, commands) = AudioPlayer::channel();
    drop(commands);
    let err = p.stop().unwrap_err();
    assert!(err.starts_with("Audio channel error: "));
}

#[test]
fn audio_actions() {
    assert!(matches!(audio_action(AudioCmd::Play("x.wav".to_string())), AudioAction::Load(p) if p == "x.wav"));
    assert!(matches!(audio_action(AudioCmd::Stop), AudioAction::Clear));
    assert!(matches!(audio_action(AudioCmd::Shutdown), AudioAction::Halt));
}

#[test]
fn command_outcome_messages() {
    assert_eq!(command_outcome(Ok(())), Ok(()));
    assert_eq!(
        command_outcome(Err("sending on a full channel".to_string())),
        Err("Audio channel error: sending on a full channel".to_string())
    );
}

#[test]
fn command_builders() {
    match play_command("x.wav".to_string()) {
        AudioCmd::Play(p) => assert_eq!(p, "x.wav"),
        other => panic!("unexpected {:?}", other),
    }
    assert!(matches!(stop_command(), AudioCmd::Stop));
    assert!(matches!(shutdown_command(), AudioCmd::Shutdown));
}

#[test]
fn shutdown_tells_whether_the_queue_took_it() {
    let (p, commands) = AudioPlayer::channel();
    assert!(p.shutdown());
    assert!(matches!(commands.recv().unwrap(), AudioCmd::Shutdown));
    drop(commands);
    assert!(!p.shutdown());
}
