//! What the settings of the driver have to be, and how states are filed.

use vstd::prelude::*;

use crate::dialogue::{
    goes_on, group_in_step, lemma_asked_earlier, lemma_asked_now, lemma_asked_stays, was_asked,
};
use crate::driver::config::{tls_files_run, tls_run, vm_program, ConfigView, TlsPathsView};
use crate::driver::guest::{console_log_of, state_dir_of};
use crate::driver::host::{host_answer, HostReplyView, HostRequestView, HostTranscript};
use crate::driver::sandbox::{ConditionView, SandboxPhase};
use crate::driver::vm_driver::{condition_set, new_run, DriverView};
use crate::paths::{joined_path, law_name_is_replaced, law_parent_of_child, settled};
use crate::text::{is_blank, law_blank_is_trimmed_away};

verus! {

/// The operation succeeded, or the question was answered with yes.
pub open spec fn granted() -> spec_fn(HostReplyView) -> bool {
    |a: HostReplyView| a.ok
}

/// A driver without TLS files is only good for a gateway that is not reached over TLS; it
/// looks for nothing.
pub proof fn law_no_tls_files(t: HostTranscript, config: ConfigView)
    requires
        config.tls_ca is None,
        config.tls_cert is None,
        config.tls_key is None,
    ensures
        tls_run(t, config).0 == t,
        "https://"@.is_prefix_of(config.openshell_endpoint) ==> tls_run(t, config).1 is Err,
        !"https://"@.is_prefix_of(config.openshell_endpoint) ==> tls_run(t, config).1 == Ok::<
            Option<TlsPathsView>,
            Seq<char>,
        >(None),
{
}

/// TLS files come all together: where one is given and another is not, the configuration is
/// refused without a look at the host, and the message names the variable of the first that
/// is missing.
pub proof fn law_tls_files_come_together(t: HostTranscript, config: ConfigView)
    requires
        config.tls_ca is Some || config.tls_cert is Some || config.tls_key is Some,
        config.tls_ca is None || config.tls_cert is None || config.tls_key is None,
    ensures
        tls_run(t, config).0 == t,
        tls_run(t, config).1 is Err,
        tls_run(t, config).1->Err_0 == if config.tls_ca is None {
            "OPENSHELL_TLS_CA is required when TLS materials are configured"@
        } else if config.tls_cert is None {
            "OPENSHELL_TLS_CERT is required when TLS materials are configured"@
        } else {
            "OPENSHELL_TLS_KEY is required when TLS materials are configured"@
        },
{
}

/// TLS files that are all given are accepted as they are where each of them is a file on
/// the host; otherwise the message names one that the host has just said is none.
pub proof fn law_tls_files_exist(
    t: HostTranscript,
    config: ConfigView,
    ca: Seq<char>,
    cert: Seq<char>,
    key: Seq<char>,
)
    requires
        config.tls_ca == Some(ca),
        config.tls_cert == Some(cert),
        config.tls_key == Some(key),
        t.live(),
        tls_run(t, config).0.live(),
    ensures
        ({
            let (u, r) = tls_run(t, config);
            match r {
                Ok(paths) => {
                    &&& paths == Some(TlsPathsView { ca, cert, key })
                    &&& was_asked(t, u, HostRequestView::IsFile { path: ca }, granted())
                    &&& was_asked(t, u, HostRequestView::IsFile { path: cert }, granted())
                    &&& was_asked(t, u, HostRequestView::IsFile { path: key }, granted())
                },
                Err(message) => {
                    let last = u.asked.last();
                    &&& last is IsFile
                    &&& last->IsFile_path == ca || last->IsFile_path == cert || last->IsFile_path
                        == key
                    &&& !host_answer(u).ok
                    &&& message == "TLS material '"@ + last->IsFile_path
                        + "' does not exist or is not a file"@
                },
            }
        }),
{
    broadcast use {group_in_step, lemma_asked_stays, lemma_asked_earlier};

    let (u, r) = tls_run(t, config);
    let q1 = HostRequestView::IsFile { path: ca };
    let q2 = HostRequestView::IsFile { path: cert };
    let q3 = HostRequestView::IsFile { path: key };
    let t1 = t.ask(q1);
    let t2 = t1.ask(q2);
    let t3 = t2.ask(q3);
    assert(tls_run(t, config) == tls_files_run(t, TlsPathsView { ca, cert, key }));
    assert(goes_on(t, t1) && goes_on(t1, t2) && goes_on(t2, t3) && goes_on(t1, t3));
    if r is Ok {
        lemma_asked_now(t, q1, granted());
        lemma_asked_now(t1, q2, granted());
        lemma_asked_now(t2, q3, granted());
        assert(goes_on(t, t2));
    }
}

/// A driver whose gateway has an address of nothing but white space is refused, and so is
/// one whose TLS files are; nothing is made on the host for either.
pub proof fn law_refused_driver_makes_nothing(t: HostTranscript, config: ConfigView)
    ensures
        is_blank(config.openshell_endpoint) ==> new_run(t, config) == (
            t,
            Err::<(), Seq<char>>("openshell endpoint is required"@),
        ),
        !is_blank(config.openshell_endpoint) && tls_run(t, config).1 is Err ==> new_run(t, config)
            == (tls_run(t, config).0, Err::<(), Seq<char>>(tls_run(t, config).1->Err_0)),
{
    law_blank_is_trimmed_away(config.openshell_endpoint);
}

/// A driver starts once the directory of its sandboxes has been made below its state
/// directory, and only then; where that fails, the message says which and why.
pub proof fn law_driver_makes_its_directory(t: HostTranscript, config: ConfigView)
    requires
        !is_blank(config.openshell_endpoint),
        tls_run(t, config).1 is Ok,
        tls_run(t, config).0.live(),
        new_run(t, config).0.live(),
    ensures
        ({
            let (u, r) = new_run(t, config);
            let dir = joined_path(config.state_dir, "sandboxes"@);
            &&& u.asked == tls_run(t, config).0.asked.push(
                HostRequestView::CreateDirAll { path: dir },
            )
            &&& r is Ok <==> host_answer(u).ok
            &&& r is Err ==> r->Err_0 == "failed to create state dir '"@ + dir + "': "@
                + host_answer(u).text
        }),
{
    law_blank_is_trimmed_away(config.openshell_endpoint);
}

/// The program that runs machines is the one that was given; without one it is the program
/// named `openshell-vm`, with the suffix of the host, in the directory of the running
/// program.
pub proof fn law_machine_program(
    given: Seq<char>,
    current: Result<Seq<char>, Seq<char>>,
    dir: Seq<char>,
    running: Seq<char>,
    suffix: Seq<char>,
)
    requires
        dir.len() > 0,
        settled(dir) == dir,
        dir.last() != '/',
        running.len() > 0,
        running != seq!['.'],
        running != seq!['.', '.'],
        !running.contains('/'),
    ensures
        vm_program(Some(given), current, suffix) == Ok::<Seq<char>, Seq<char>>(given),
        vm_program(None, Ok(dir + seq!['/'] + running), suffix) == Ok::<Seq<char>, Seq<char>>(
            dir + seq!['/'] + "openshell-vm"@ + suffix,
        ),
        forall|reason: Seq<char>| #[trigger]
            vm_program(None, Err(reason), suffix) == Err::<Seq<char>, Seq<char>>(
                "failed to resolve current executable: "@ + reason,
            ),
{
    let name = "openshell-vm"@ + suffix;
    reveal_strlit("openshell-vm");
    assert(name[0] == 'o');
    law_name_is_replaced(dir, running, name);
    assert(dir + seq!['/'] + name =~= dir + seq!['/'] + "openshell-vm"@ + suffix);
}

/// The console log of a machine lies beside its root file system.
pub proof fn law_console_log_is_beside(dir: Seq<char>, name: Seq<char>)
    requires
        dir.len() > 0,
        settled(dir) == dir,
        dir.last() != '/',
        name.len() > 0,
        name != seq!['.'],
        !name.contains('/'),
    ensures
        console_log_of(dir + seq!['/'] + name) == dir + seq!['/'] + "rootfs-console.log"@,
{
    reveal_strlit("rootfs-console.log");
    law_parent_of_child(dir, name);
    assert(name[0] != '/') by {
        assert(name.contains(name[0]));
    }
    assert(joined_path(dir, name) =~= dir + seq!['/'] + name);
    assert(joined_path(dir, "rootfs-console.log"@) =~= dir + seq!['/'] + "rootfs-console.log"@);
}

/// The files of a sandbox lie in a directory with its id, below that of all sandboxes.
pub proof fn law_state_directory(root: Seq<char>, id: Seq<char>)
    requires
        root.len() > 0,
        root.last() != '/',
        id.len() > 0,
        id[0] != '/',
    ensures
        state_dir_of(root, id) == root + "/sandboxes/"@ + id,
{
    reveal_strlit("sandboxes");
    reveal_strlit("/sandboxes/");
    assert(joined_path(root, "sandboxes"@) =~= root + seq!['/'] + "sandboxes"@);
    assert(state_dir_of(root, id) =~= root + "/sandboxes/"@ + id);
}

/// A state is filed for the sandbox that it is of and for no other: it replaces what was
/// filed, while all that identifies the sandbox and describes its machine stays; of a
/// sandbox that is not registered nothing is filed.
pub proof fn law_condition_is_filed(
    driver: DriverView,
    id: Seq<char>,
    phase: SandboxPhase,
    condition: ConditionView,
)
    ensures
        ({
            let after = condition_set(driver, id, phase, condition);
            let (a, b) = (driver.records[id], after.records[id]);
            &&& after.config == driver.config && after.events == driver.events
            &&& !driver.records.contains_key(id) ==> after == driver
            &&& driver.records.contains_key(id) ==> {
                &&& after.records.contains_key(id)
                &&& b.snapshot.phase == phase
                &&& b.snapshot.status is Some
                &&& b.snapshot.status->0.conditions == seq![condition]
                &&& b.snapshot.status->0.sandbox_name == a.snapshot.name
                &&& a.snapshot.status is Some ==> b.snapshot.status->0.driver_config
                    == a.snapshot.status->0.driver_config
                &&& b.snapshot.id == a.snapshot.id
                &&& b.snapshot.name == a.snapshot.name
                &&& b.snapshot.namespace == a.snapshot.namespace
                &&& b.snapshot.sandbox_spec == a.snapshot.sandbox_spec
                &&& b.ssh_port == a.ssh_port
                &&& b.state_dir == a.state_dir
            }
            &&& forall|other: Seq<char>|
                other != id ==> after.records.contains_key(other) == driver.records.contains_key(
                    other,
                ) && (#[trigger] after.records[other]) == driver.records[other]
        }),
{
}

} // verus!
