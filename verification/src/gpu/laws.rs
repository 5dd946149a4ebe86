//! What holds of preparing a GPU as a whole: nothing is taken unchecked.

use vstd::prelude::*;

use crate::gpu::checks::{gpu_processes_run, is_pci_addr};
use crate::gpu::obstacle::{BlockageView, Blocked, ObstacleView};
use crate::gpu::prepare::{
    claim_run, first_free_run, first_ready_run, found_processes, gpus_run, is_ready_run,
    prepare_run, reason_run, refusal_run, Prepared,
};
use crate::gpu::probe::attribute_run;
use crate::gpu::reads::{
    group_reads, lemma_first_ready_reads, lemma_gpu_processes_read, lemma_gpus_read,
    lemma_is_ready_reads, lemma_reads_on, lemma_reason_reads, lemma_refusal_reads, only_reads,
};
use crate::order::in_order;
use crate::sysfs::{answer, device_dir, devices_dir, SysfsRequestView, SysfsTranscript};

verus! {

/// At `m`, the safety checks on the GPU at `addr` have all just passed, in the
/// form for a GPU that was asked for or in the form for one of the host's.
pub open spec fn checks_passed(m: SysfsTranscript, root: Seq<char>, addr: Seq<char>) -> bool {
    ||| exists|s: SysfsTranscript| #[trigger] refusal_run(s, root, addr) == (
        m,
        None::<ObstacleView>,
    )
    ||| exists|s: SysfsTranscript| #[trigger]
        reason_run(s, root, addr, Seq::empty()) == (m, None::<BlockageView>)
}

/// A GPU was claimed in going from `t` to `end`: after nothing but reading, at `m`,
/// and with all safety checks passed.
pub open spec fn claimed_at(
    t: SysfsTranscript,
    root: Seq<char>,
    m: SysfsTranscript,
    addr: Seq<char>,
    end: (SysfsTranscript, Prepared),
) -> bool {
    &&& only_reads(t, m)
    &&& checks_passed(m, root, addr)
    &&& end == claim_run(m, root, addr)
}

/// Nothing was bound for the GPU: neither itself nor another device of its group.
pub open spec fn bound_nothing(prepared: Prepared) -> bool {
    prepared is Ok ==> !prepared->Ok_0.did_bind && prepared->Ok_0.peer_binds.len() == 0
}

/// A preparation either read only, and then bound nothing, or it claimed one GPU
/// after all of its checks had passed.
pub open spec fn safely_prepared(
    t: SysfsTranscript,
    root: Seq<char>,
    end: (SysfsTranscript, Prepared),
) -> bool {
    ||| only_reads(t, end.0) && bound_nothing(end.1)
    ||| exists|m: SysfsTranscript, addr: Seq<char>| #[trigger] claimed_at(t, root, m, addr, end)
}

proof fn lemma_first_free_safe(
    t: SysfsTranscript,
    root: Seq<char>,
    addrs: Seq<Seq<char>>,
    i: nat,
    users: Seq<(u32, Seq<char>)>,
    blocked: Blocked,
)
    ensures
        safely_prepared(t, root, first_free_run(t, root, addrs, i, users, blocked)),
    decreases addrs.len() - i,
{
    broadcast use lemma_reads_on;

    let end = first_free_run(t, root, addrs, i, users, blocked);
    if i < addrs.len() {
        let addr = addrs[i as int];
        lemma_reason_reads(t, root, addr, users);
        let (m, reason) = reason_run(t, root, addr, users);
        match reason {
            Some(reason) => {
                lemma_first_free_safe(m, root, addrs, i + 1, users, blocked.push((addr, reason)));
                if !only_reads(m, end.0) || !bound_nothing(end.1) {
                    let (n, a) = choose|n: SysfsTranscript, a: Seq<char>| #[trigger]
                        claimed_at(m, root, n, a, end);
                    assert(claimed_at(t, root, n, a, end));
                }
            },
            None => {
                assert(users =~= Seq::empty());
                assert(reason_run(t, root, addr, Seq::empty()) == (m, None::<BlockageView>));
                assert(claimed_at(t, root, m, addr, end));
            },
        }
    } else {
        assert(only_reads(t, t));
    }
}

/// The safety checks are hard failures: a preparation writes nothing and binds
/// nothing unless every check on one GPU has passed, and before that it only reads.
pub proof fn law_nothing_is_taken_unchecked(
    t: SysfsTranscript,
    root: Seq<char>,
    asked: Option<Seq<char>>,
)
    ensures
        safely_prepared(t, root, prepare_run(t, root, asked)),
{
    broadcast use group_reads;

    let end = prepare_run(t, root, asked);
    match asked {
        Some(addr) => {
            if is_pci_addr(addr) {
                let dev = device_dir(root, addr);
                let t1 = t.ask(SysfsRequestView::Exists { path: dev });
                let t2 = attribute_run(t1, dev, "vendor"@).0;
                let t3 = attribute_run(t2, dev, "class"@).0;
                assert(only_reads(t1, t2));
                assert(only_reads(t2, t3));
                lemma_is_ready_reads(t3, root, addr);
                let t4 = is_ready_run(t3, root, addr).0;
                lemma_refusal_reads(t4, root, addr);
                let (m, refused) = refusal_run(t4, root, addr);
                assert(only_reads(t, t4));
                assert(only_reads(t, m));
                if refused is None {
                    assert(refusal_run(t4, root, addr) == (m, None::<ObstacleView>));
                    assert(checks_passed(m, root, addr));
                    if end == claim_run(m, root, addr) {
                        assert(claimed_at(t, root, m, addr, end));
                    }
                }
            } else {
                assert(only_reads(t, t));
            }
        },
        None => {
            let t1 = t.ask(SysfsRequestView::ListDir { path: devices_dir(root) });
            let names = answer(t1).names;
            lemma_gpus_read(t1, root, names, 0, Seq::empty());
            let (t2, gpus) = gpus_run(t1, root, names, 0, Seq::empty());
            let addrs = in_order(gpus);
            lemma_first_ready_reads(t2, root, addrs, 0);
            let t3 = first_ready_run(t2, root, addrs, 0).0;
            lemma_gpu_processes_read(t3);
            let (t4, users) = gpu_processes_run(t3);
            lemma_first_free_safe(t4, root, addrs, 0, found_processes(users), Seq::empty());
            assert(only_reads(t, t2));
            assert(only_reads(t, t3));
            assert(only_reads(t, t4));
            let rest = first_free_run(t4, root, addrs, 0, found_processes(users), Seq::empty());
            if end == rest && !(only_reads(t4, end.0) && bound_nothing(end.1)) {
                let (n, a) = choose|n: SysfsTranscript, a: Seq<char>| #[trigger]
                    claimed_at(t4, root, n, a, end);
                assert(claimed_at(t, root, n, a, end));
            }
        },
    }
}

} // verus!
