//! The preview player's command protocol: the interface queues commands for
//! the audio thread, which turns each into an action on the output device.

use std::sync::mpsc::{Receiver, SyncSender, TrySendError};
use vstd::prelude::*;
use crate::text::{chars_of, push_range, string_of};

verus! {

#[verifier::external_type_specification]
#[verifier::external_body]
#[verifier::reject_recursive_types(T)]
pub struct ExSyncSender<T>(SyncSender<T>);

#[verifier::external_type_specification]
#[verifier::external_body]
#[verifier::reject_recursive_types(T)]
pub struct ExReceiver<T>(Receiver<T>);

/// A command for the audio thread.
#[derive(Debug)]
pub enum AudioCmd {
    /// Play the file at this path, replacing whatever plays.
    Play(String),
    /// Stop playback.
    Stop,
    /// Stop playback and end the audio thread.
    Shutdown,
}

/// What the audio thread does on a command.
#[derive(Debug)]
pub enum AudioAction {
    /// Clear the playback queue, then open, decode and queue this file.
    Load(String),
    /// Clear the playback queue.
    Clear,
    /// Stop playback and leave the command loop.
    Halt,
}

/// The action the audio thread takes on `cmd`.
pub fn audio_action(cmd: AudioCmd) -> (a: AudioAction)
    ensures
        match cmd {
            AudioCmd::Play(p) => a == AudioAction::Load(p),
            AudioCmd::Stop => a == AudioAction::Clear,
            AudioCmd::Shutdown => a == AudioAction::Halt,
        },
{
    match cmd {
        AudioCmd::Play(p) => AudioAction::Load(p),
        AudioCmd::Stop => AudioAction::Clear,
        AudioCmd::Shutdown => AudioAction::Halt,
    }
}

/// How many commands may wait for the audio thread.
pub const COMMAND_QUEUE_CAPACITY: usize = 4;

/// The number of commands the queue behind a sender holds at most: the bound
/// it was made with.
pub uninterp spec fn queue_bound(tx: SyncSender<AudioCmd>) -> nat;

/// The sender and the receiver are the two ends of one queue: what the
/// sender queues, the receiver receives.
pub uninterp spec fn same_queue(tx: SyncSender<AudioCmd>, rx: Receiver<AudioCmd>) -> bool;

/// The queue behind `tx` has taken `cmd`: the command was handed to it and
/// waits there for the receiver, or has reached it.
pub uninterp spec fn offered(tx: SyncSender<AudioCmd>, cmd: AudioCmd) -> bool;

/// A bounded command queue of `capacity` places (std's `mpsc::sync_channel`):
/// its two ends, made with that bound.
#[verifier::external_body]
fn command_channel(capacity: usize) -> (r: (SyncSender<AudioCmd>, Receiver<AudioCmd>))
    ensures
        queue_bound(r.0) == capacity,
        same_queue(r.0, r.1),
{
    std::sync::mpsc::sync_channel(capacity)
}

/// Queues `cmd` without waiting (std's `SyncSender::try_send`). On success
/// the queue has taken the command; a refused command comes back, unchanged,
/// with the text of why the queue refused it (`TrySendError::Full` and
/// `TrySendError::Disconnected` hold the unsent value). Whether it is refused
/// depends on the state of the queue and of its receiver, so that is not
/// stated.
#[verifier::external_body]
fn try_send_command(tx: &SyncSender<AudioCmd>, cmd: AudioCmd) -> (r: Result<(), (AudioCmd, String)>)
    ensures
        r is Ok ==> offered(*tx, cmd),
        r matches Err((refused, _)) ==> refused == cmd,
{
    match tx.try_send(cmd) {
        Ok(()) => Ok(()),
        Err(e) => {
            let detail = e.to_string();
            match e {
                TrySendError::Full(c) => Err((c, detail)),
                TrySendError::Disconnected(c) => Err((c, detail)),
            }
        },
    }
}

/// The command that asks the audio thread to play the file at `path`.
pub fn play_command(path: String) -> (c: AudioCmd)
    ensures
        c == AudioCmd::Play(path),
{
    AudioCmd::Play(path)
}

/// The command that asks the audio thread to stop playback.
pub fn stop_command() -> (c: AudioCmd)
    ensures
        c == AudioCmd::Stop,
{
    AudioCmd::Stop
}

/// The command that asks the audio thread to end.
pub fn shutdown_command() -> (c: AudioCmd)
    ensures
        c == AudioCmd::Shutdown,
{
    AudioCmd::Shutdown
}

/// The message for a refused command, from the queue's reason.
pub open spec fn channel_error(detail: Seq<char>) -> Seq<char> {
    "Audio channel error: "@ + detail
}

/// `message` reports a refused command.
pub open spec fn is_channel_error(message: Seq<char>) -> bool {
    exists|detail: Seq<char>| message == #[trigger] channel_error(detail)
}

/// The message for a refused command, from the queue's reason.
fn channel_error_message(detail: String) -> (m: String)
    ensures
        m@ == channel_error(detail@),
{
    let mut out = chars_of("Audio channel error: ");
    let d = chars_of(detail.as_str());
    let n = d.len();
    push_range(&mut out, &d, 0, n);
    assert(d@.subrange(0, n as int) =~= detail@);
    string_of(&out)
}

/// What a command request answers, from what the queue answered: success as
/// it is, or the queue's reason turned into a channel-error message.
pub fn command_outcome(sent: Result<(), String>) -> (r: Result<(), String>)
    ensures
        match sent {
            Ok(()) => r is Ok,
            Err(detail) => r matches Err(m) && m@ == channel_error(detail@),
        },
{
    match sent {
        Ok(()) => Ok(()),
        Err(detail) => Err(channel_error_message(detail)),
    }
}

/// The interface side of the preview player: it queues commands for the
/// audio thread.
pub struct AudioPlayer {
    tx: SyncSender<AudioCmd>,
}

impl AudioPlayer {
    /// The sending end of the player's command queue.
    pub closed spec fn sender(self) -> SyncSender<AudioCmd> {
        self.tx
    }

    /// A player and the receiving end of its command queue, which the audio
    /// thread reads; the queue holds `COMMAND_QUEUE_CAPACITY` commands.
    pub fn channel() -> (r: (AudioPlayer, Receiver<AudioCmd>))
        ensures
            queue_bound(r.0.sender()) == COMMAND_QUEUE_CAPACITY,
            same_queue(r.0.sender(), r.1),
    {
        let (tx, rx) = command_channel(COMMAND_QUEUE_CAPACITY);
        (AudioPlayer { tx }, rx)
    }

    fn send(&self, cmd: AudioCmd) -> (r: Result<(), String>)
        ensures
            r is Ok ==> offered(self.sender(), cmd),
            r matches Err(m) ==> is_channel_error(m@),
    {
        let sent = match try_send_command(&self.tx, cmd) {
            Ok(()) => Ok(()),
            Err((_refused, detail)) => Err(detail),
        };
        let r = command_outcome(sent);
        assert(r matches Err(m) ==> is_channel_error(m@)) by {
            if let Err(detail) = sent {
                assert(r->Err_0@ == channel_error(detail@));
            }
        }
        r
    }

    /// Asks the audio thread to play the file at `path`: on success the
    /// queue has taken the play command for that path.
    pub fn play(&self, path: String) -> (r: Result<(), String>)
        ensures
            r is Ok ==> offered(self.sender(), AudioCmd::Play(path)),
            r matches Err(m) ==> is_channel_error(m@),
    {
        self.send(play_command(path))
    }

    /// Asks the audio thread to stop playback: on success the queue has
    /// taken the stop command.
    pub fn stop(&self) -> (r: Result<(), String>)
        ensures
            r is Ok ==> offered(self.sender(), AudioCmd::Stop),
            r matches Err(m) ==> is_channel_error(m@),
    {
        self.send(stop_command())
    }

    /// Asks the audio thread to end, if the queue takes the command; tells
    /// whether it did.
    pub fn shutdown(&self) -> (taken: bool)
        ensures
            taken ==> offered(self.sender(), AudioCmd::Shutdown),
    {
        match try_send_command(&self.tx, shutdown_command()) {
            Ok(()) => true,
            Err(_) => false,
        }
    }
}

} // verus!
