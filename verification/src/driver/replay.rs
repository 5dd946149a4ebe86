//! Every procedure of the driver can be run again from the start with more replies
//! at hand: it asks the same, in the same order, and goes on where it had to wait.
//!
//! For each procedure, `go_*` shows that it only goes on from where it is, and
//! `step_*` that two runs of it agree as far as the first gets.

use vstd::prelude::*;

use crate::dialogue::{goes_on, group_in_step, in_step};
use crate::driver::config::{tls_run, ConfigView, TlsPathsView};
use crate::driver::create::{
    copy_tls_run, files_run, guest_tls_run, local_port_run, start_run, RecordView,
};
use crate::driver::host::HostTranscript;
use crate::driver::sandbox::SandboxView;
use crate::driver::vm_driver::{
    creation_run, delete_run, end_run, new_run, terminate_run, DriverView,
};

verus! {

broadcast proof fn go_tls(t: HostTranscript, config: ConfigView)
    ensures
        goes_on(t, (#[trigger] tls_run(t, config)).0),
{
    broadcast use group_in_step;

}

broadcast proof fn step_tls(t: HostTranscript, u: HostTranscript, config: ConfigView)
    requires
        t.replays_in(u),
    ensures
        in_step(#[trigger] tls_run(t, config), #[trigger] tls_run(u, config)),
{
    broadcast use group_in_step;

}

broadcast proof fn go_copy_tls(t: HostTranscript, from: Seq<char>, to: Seq<char>, mode: u32)
    ensures
        goes_on(t, (#[trigger] copy_tls_run(t, from, to, mode)).0),
{
    broadcast use group_in_step;

}

broadcast proof fn step_copy_tls(
    t: HostTranscript,
    u: HostTranscript,
    from: Seq<char>,
    to: Seq<char>,
    mode: u32,
)
    requires
        t.replays_in(u),
    ensures
        in_step(
            #[trigger] copy_tls_run(t, from, to, mode),
            #[trigger] copy_tls_run(u, from, to, mode),
        ),
{
    broadcast use group_in_step;

}

broadcast proof fn go_guest_tls(t: HostTranscript, rootfs: Seq<char>, paths: TlsPathsView)
    ensures
        goes_on(t, (#[trigger] guest_tls_run(t, rootfs, paths)).0),
{
    broadcast use {group_in_step, go_copy_tls, step_copy_tls};

}

broadcast proof fn step_guest_tls(
    t: HostTranscript,
    u: HostTranscript,
    rootfs: Seq<char>,
    paths: TlsPathsView,
)
    requires
        t.replays_in(u),
    ensures
        in_step(
            #[trigger] guest_tls_run(t, rootfs, paths),
            #[trigger] guest_tls_run(u, rootfs, paths),
        ),
{
    broadcast use {group_in_step, go_copy_tls, step_copy_tls};

}

broadcast proof fn go_local_port(t: HostTranscript)
    ensures
        goes_on(t, (#[trigger] local_port_run(t)).0),
{
    broadcast use group_in_step;

}

broadcast proof fn step_local_port(t: HostTranscript, u: HostTranscript)
    requires
        t.replays_in(u),
    ensures
        in_step(#[trigger] local_port_run(t), #[trigger] local_port_run(u)),
{
    broadcast use group_in_step;

}

broadcast proof fn go_start(
    t: HostTranscript,
    sandbox: SandboxView,
    config: ConfigView,
    init_path: Seq<char>,
    ssh_port: u16,
)
    ensures
        goes_on(t, (#[trigger] start_run(t, sandbox, config, init_path, ssh_port)).0),
{
    broadcast use group_in_step;

}

broadcast proof fn step_start(
    t: HostTranscript,
    u: HostTranscript,
    sandbox: SandboxView,
    config: ConfigView,
    init_path: Seq<char>,
    ssh_port: u16,
)
    requires
        t.replays_in(u),
    ensures
        in_step(
            #[trigger] start_run(t, sandbox, config, init_path, ssh_port),
            #[trigger] start_run(u, sandbox, config, init_path, ssh_port),
        ),
{
    broadcast use group_in_step;

}

broadcast group group_creation {
    go_tls,
    step_tls,
    go_guest_tls,
    step_guest_tls,
    go_local_port,
    step_local_port,
    go_start,
    step_start,
}

broadcast proof fn go_files(
    t: HostTranscript,
    sandbox: SandboxView,
    config: ConfigView,
    init_path: Seq<char>,
    ssh_port: u16,
)
    ensures
        goes_on(t, (#[trigger] files_run(t, sandbox, config, init_path, ssh_port)).0),
{
    broadcast use {group_in_step, group_creation};

}

broadcast proof fn step_files(
    t: HostTranscript,
    u: HostTranscript,
    sandbox: SandboxView,
    config: ConfigView,
    init_path: Seq<char>,
    ssh_port: u16,
)
    requires
        t.replays_in(u),
    ensures
        in_step(
            #[trigger] files_run(t, sandbox, config, init_path, ssh_port),
            #[trigger] files_run(u, sandbox, config, init_path, ssh_port),
        ),
{
    broadcast use {group_in_step, group_creation};

}

broadcast proof fn go_end(t: HostTranscript, id: Seq<char>)
    ensures
        goes_on(t, (#[trigger] end_run(t, id)).0),
{
    broadcast use group_in_step;

}

broadcast proof fn step_end(t: HostTranscript, u: HostTranscript, id: Seq<char>)
    requires
        t.replays_in(u),
    ensures
        in_step(#[trigger] end_run(t, id), #[trigger] end_run(u, id)),
{
    broadcast use group_in_step;

}

broadcast proof fn go_terminate(t: HostTranscript, id: Seq<char>)
    ensures
        goes_on(t, (#[trigger] terminate_run(t, id)).0),
{
    broadcast use {group_in_step, go_end, step_end};

}

broadcast proof fn step_terminate(t: HostTranscript, u: HostTranscript, id: Seq<char>)
    requires
        t.replays_in(u),
    ensures
        in_step(#[trigger] terminate_run(t, id), #[trigger] terminate_run(u, id)),
{
    broadcast use {group_in_step, go_end, step_end};

}

/// Starting the driver can be run again with more replies: it goes on where it
/// waited, and once it has come to an end, more replies change nothing.
pub proof fn law_starting_is_replayed(
    t: HostTranscript,
    fuller: HostTranscript,
    config: ConfigView,
)
    requires
        t.replays_in(fuller),
    ensures
        in_step(new_run(t, config), new_run(fuller, config)),
{
    broadcast use {group_in_step, go_tls, step_tls};

}

/// Creating a sandbox can be run again with more replies.
pub proof fn law_creating_is_replayed(
    t: HostTranscript,
    fuller: HostTranscript,
    driver: DriverView,
    sandbox: SandboxView,
    init_path: Seq<char>,
)
    requires
        t.replays_in(fuller),
    ensures
        in_step(
            creation_run(t, driver, sandbox, init_path),
            creation_run(fuller, driver, sandbox, init_path),
        ),
{
    broadcast use {group_in_step, group_creation, go_files, step_files};

}

/// Deleting a sandbox can be run again with more replies.
pub proof fn law_deleting_is_replayed(
    t: HostTranscript,
    fuller: HostTranscript,
    record: RecordView,
)
    requires
        t.replays_in(fuller),
    ensures
        in_step(delete_run(t, record), delete_run(fuller, record)),
{
    broadcast use {group_in_step, go_terminate, step_terminate};

}

} // verus!
