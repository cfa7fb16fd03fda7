//! The control of the audio player: the status that the playback job and
//! the chat commands share, and what each of them does on it.

use crate::queue::Wake;
use vstd::prelude::*;

verus! {

/// The status of the audio player, which doubles as the command that was
/// last given to it.
#[derive(Debug, Clone, Copy, PartialEq, Eq, Structural)]
pub enum PlayerCommands {
    /// Playback was asked for.
    Play,
    /// The clip that plays is to be cut off.
    Stop,
    /// Nothing plays.
    Ready,
    /// A clip plays.
    Busy,
}

/// What the playback job does with the next chunk of a clip.
#[derive(Debug, Clone, Copy, PartialEq, Eq, Structural)]
pub enum ChunkStep {
    /// Write the chunk to the sink.
    Write,
    /// Leave this chunk out and go on with the next.
    Skip,
    /// Stop was asked for: give up the rest of the clip.
    Halt,
}

/// The player's control. Its view is its status.
pub struct AudioPlayControl {
    status: PlayerCommands,
}

impl View for AudioPlayControl {
    type V = PlayerCommands;

    closed spec fn view(&self) -> PlayerCommands {
        self.status
    }
}

/// The status after a request to stop: only a player that is busy takes it.
pub open spec fn after_stop_request(status: PlayerCommands) -> PlayerCommands {
    if status == PlayerCommands::Busy {
        PlayerCommands::Stop
    } else {
        status
    }
}

/// What to do with a chunk under this status.
pub open spec fn chunk_step_of(status: PlayerCommands) -> ChunkStep {
    match status {
        PlayerCommands::Busy => ChunkStep::Write,
        PlayerCommands::Stop => ChunkStep::Halt,
        _ => ChunkStep::Skip,
    }
}

impl AudioPlayControl {
    /// A control whose player is ready.
    pub fn new() -> (control: Self)
        ensures
            control@ == PlayerCommands::Ready,
    {
        AudioPlayControl { status: PlayerCommands::Ready }
    }

    /// Asks for playback, and wakes one job that waits for an event.
    pub fn set_status_play(&mut self) -> (wake: Wake)
        ensures
            final(self)@ == PlayerCommands::Play,
            wake == Wake::One,
    {
        self.status = PlayerCommands::Play;
        Wake::One
    }

    /// Asks the player to cut off the clip. A player that is not busy
    /// ignores this: its status stays and nobody is woken.
    pub fn set_status_stop(&mut self) -> (wake: Wake)
        ensures
            final(self)@ == after_stop_request(old(self)@),
            wake == if old(self)@ == PlayerCommands::Busy {
                Wake::One
            } else {
                Wake::Nobody
            },
    {
        if self.get_status() != PlayerCommands::Busy {
            return Wake::Nobody;
        }
        self.status = PlayerCommands::Stop;
        Wake::One
    }

    /// Marks the player as busy.
    pub fn set_status_busy(&mut self)
        ensures
            final(self)@ == PlayerCommands::Busy,
    {
        self.status = PlayerCommands::Busy;
    }

    /// Marks the player as ready.
    pub fn set_status_ready(&mut self)
        ensures
            final(self)@ == PlayerCommands::Ready,
    {
        self.status = PlayerCommands::Ready;
    }

    /// The status as a job finds it when it has been woken.
    pub fn get_event(&self) -> (event: PlayerCommands)
        ensures
            event == self@,
    {
        self.status
    }

    /// The status.
    pub fn get_status(&self) -> (status: PlayerCommands)
        ensures
            status == self@,
    {
        self.status
    }

    /// Decides on the next chunk of the clip that is written to a sink.
    /// While the player is busy the chunk is written; once stop was asked
    /// for, the player becomes ready and the clip is given up; under any
    /// other status the chunk is left out.
    pub fn next_chunk(&mut self) -> (step: ChunkStep)
        ensures
            step == chunk_step_of(old(self)@),
            final(self)@ == if old(self)@ == PlayerCommands::Stop {
                PlayerCommands::Ready
            } else {
                old(self)@
            },
    {
        match self.status {
            PlayerCommands::Busy => ChunkStep::Write,
            PlayerCommands::Stop => {
                self.status = PlayerCommands::Ready;
                ChunkStep::Halt
            },
            _ => ChunkStep::Skip,
        }
    }

    /// Whether a sound handed to a mixer is left playing: until stop is
    /// asked for or the mixer says that the sound has ended.
    pub fn keeps_playing(&self, sound_is_playing: bool) -> (goes_on: bool)
        ensures
            goes_on == (self@ != PlayerCommands::Stop && sound_is_playing),
    {
        self.status != PlayerCommands::Stop && sound_is_playing
    }
}

} // verus!
