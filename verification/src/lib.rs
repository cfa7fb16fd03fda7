//! Supervision and messaging core of a chat bot: a FIFO mailbox whose
//! consumers wait for items, a fan-out broadcast channel, and a task
//! registry that restarts each job within its own budget.
//!
//! But for the broadcast channel, which is shared as it is, every type here
//! is sequential. A caller that shares one between concurrent jobs guards
//! it with a lock and performs the waiting and the waking that the methods
//! ask for through their results.

pub mod queue;
pub mod task_manager;
pub mod broadcast;
pub mod audio_player;
pub mod text;
pub mod twitch_client;
pub mod irc_parser;
pub mod bot_commands;
pub mod bot_external_commands;
pub mod tts;
pub mod users;
