//! The start of the server can be run again from the beginning with more replies at
//! hand: it asks the same, in the same order, and goes on where it had to wait.

use vstd::prelude::*;

use crate::dialogue::{goes_on, group_in_step, in_step};
use crate::server::config::ServerView;
use crate::server::startup::{
    serve_run, spawn_driver_run, start_run, with_store_run, StartTranscript,
};

verus! {

broadcast proof fn go_spawn_driver(
    t: StartTranscript,
    config: ServerView,
    binary: Seq<char>,
    endpoint: Seq<char>,
)
    ensures
        goes_on(t, (#[trigger] spawn_driver_run(t, config, binary, endpoint)).0),
{
    broadcast use group_in_step;

}

broadcast proof fn step_spawn_driver(
    t: StartTranscript,
    u: StartTranscript,
    config: ServerView,
    binary: Seq<char>,
    endpoint: Seq<char>,
)
    requires
        t.replays_in(u),
    ensures
        in_step(
            #[trigger] spawn_driver_run(t, config, binary, endpoint),
            #[trigger] spawn_driver_run(u, config, binary, endpoint),
        ),
{
    broadcast use group_in_step;

}

broadcast proof fn go_serve(t: StartTranscript, config: ServerView, endpoint: Option<Seq<char>>)
    ensures
        goes_on(t, (#[trigger] serve_run(t, config, endpoint)).0),
{
    broadcast use group_in_step;

}

broadcast proof fn step_serve(
    t: StartTranscript,
    u: StartTranscript,
    config: ServerView,
    endpoint: Option<Seq<char>>,
)
    requires
        t.replays_in(u),
    ensures
        in_step(
            #[trigger] serve_run(t, config, endpoint),
            #[trigger] serve_run(u, config, endpoint),
        ),
{
    broadcast use group_in_step;

}

pub broadcast proof fn go_with_store(t: StartTranscript, config: ServerView)
    ensures
        goes_on(t, (#[trigger] with_store_run(t, config)).0),
{
    broadcast use {group_in_step, go_spawn_driver, step_spawn_driver, go_serve, step_serve};

}

broadcast proof fn step_with_store(t: StartTranscript, u: StartTranscript, config: ServerView)
    requires
        t.replays_in(u),
    ensures
        in_step(#[trigger] with_store_run(t, config), #[trigger] with_store_run(u, config)),
{
    broadcast use {group_in_step, go_spawn_driver, step_spawn_driver, go_serve, step_serve};

}

/// The start of the server can be run again with more replies: it goes on where it
/// waited, and once it has come to an end, more replies change nothing.
pub proof fn law_starting_is_replayed(
    t: StartTranscript,
    fuller: StartTranscript,
    config: ServerView,
)
    requires
        t.replays_in(fuller),
    ensures
        in_step(start_run(t, config), start_run(fuller, config)),
{
    broadcast use {group_in_step, go_with_store, step_with_store};

}

} // verus!
