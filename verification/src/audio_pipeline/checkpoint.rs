//! The checkpoint file: how far a job has come.
use crate::audio_pipeline::models::Checkpoint;
use crate::binary32::Binary32;
use vstd::prelude::*;
use vstd::string::*;

verus! {

/// What was found where the checkpoint should be.
#[derive(Debug)]
pub enum StoredCheckpoint {
    Missing,
    Unreadable { reason: String },
    Present { checkpoint: Checkpoint },
}

/// Reads and writes the checkpoint of one job.
#[derive(Debug)]
pub struct CheckpointManager {
    pub checkpoint_path: String,
}

/// A checkpoint and the file it is to be written to.
#[derive(Debug)]
pub struct CheckpointWrite {
    pub path: String,
    pub checkpoint: Checkpoint,
}

impl CheckpointManager {
    /// A manager for the file at this path, which need not exist.
    pub fn new(checkpoint_path: &str) -> (r: Result<CheckpointManager, String>)
        ensures
            r matches Ok(m) && m.checkpoint_path@ == checkpoint_path@,
    {
        Ok(CheckpointManager { checkpoint_path: checkpoint_path.to_owned() })
    }

    /// The checkpoint to continue from: the start of the audio where none was written yet.
    pub fn load(&self, stored: StoredCheckpoint) -> (r: Result<Checkpoint, String>)
        ensures
            match stored {
                StoredCheckpoint::Missing => r matches Ok(c) && c.last_chunk == 0
                    && c.processed_seconds == Binary32::zero_number(),
                StoredCheckpoint::Unreadable { reason } => r matches Err(e) && e@ == reason@,
                StoredCheckpoint::Present { checkpoint } => r matches Ok(c) && c == checkpoint,
            },
    {
        match stored {
            StoredCheckpoint::Missing => Ok(Checkpoint::default()),
            StoredCheckpoint::Unreadable { reason } => Err(reason),
            StoredCheckpoint::Present { checkpoint } => Ok(checkpoint),
        }
    }

    /// What is to be written once a chunk is finished.
    pub fn save(&self, last_chunk: usize, processed_seconds: Binary32) -> (r: CheckpointWrite)
        ensures
            r.path@ == self.checkpoint_path@,
            r.checkpoint == (Checkpoint { last_chunk, processed_seconds }),
    {
        CheckpointWrite {
            path: self.checkpoint_path.clone(),
            checkpoint: Checkpoint { last_chunk, processed_seconds },
        }
    }
}

} // verus!
