//! Which kernel programs each tracer attaches, and what a failure to attach
//! one of them means.

use vstd::prelude::*;

use crate::text;
use crate::text::cat3;

verus! {

/// The tracers whose programs are attached one by one.
#[derive(Clone, Copy, Debug, PartialEq, Eq, Structural)]
pub enum Tracer {
    ProcFs,
    ProcNet,
    ProcSig,
    TcpDiag,
    UdpDns,
}

/// A program to attach. Without a required one its tracer does not run; a
/// legacy one traces a system call that some architectures do not have.
#[derive(Clone, Copy, Debug)]
pub struct AttachPoint {
    pub program: &'static str,
    pub required: bool,
    /// What went wrong where a required program could not be attached; the
    /// name of the tracepoint of a legacy one.
    pub label: &'static str,
}

impl View for AttachPoint {
    type V = (Seq<char>, bool, Seq<char>);

    open spec fn view(&self) -> (Seq<char>, bool, Seq<char>) {
        (self.program@, self.required, self.label@)
    }
}

pub open spec fn views(points: Seq<AttachPoint>) -> Seq<(Seq<char>, bool, Seq<char>)> {
    points.map_values(|p: AttachPoint| p@)
}

/// The programs of a tracer, in the order in which they are attached.
pub open spec fn points_of(tracer: Tracer) -> Seq<(Seq<char>, bool, Seq<char>)> {
    match tracer {
        Tracer::ProcFs => seq![
            ("trace_unlinkat_enter"@, true, "failed to attach trace_unlinkat_enter"@),
            ("trace_unlinkat_exit"@, true, "failed to attach trace_unlinkat_exit"@),
            ("trace_renameat2_enter"@, true, "failed to attach trace_renameat2_enter"@),
            ("trace_renameat2_exit"@, true, "failed to attach trace_renameat2_exit"@),
            ("trace_mkdirat_enter"@, true, "failed to attach trace_mkdirat_enter"@),
            ("trace_mkdirat_exit"@, true, "failed to attach trace_mkdirat_exit"@),
            ("trace_ftruncate_enter"@, true, "failed to attach trace_ftruncate_enter"@),
            ("trace_ftruncate_exit"@, true, "failed to attach trace_ftruncate_exit"@),
            ("trace_chdir_enter"@, true, "failed to attach trace_chdir_enter"@),
            ("trace_chdir_exit"@, true, "failed to attach trace_chdir_exit"@),
            ("trace_openat_enter"@, true, "failed to attach trace_openat_enter"@),
            ("trace_openat_exit"@, true, "failed to attach trace_openat_exit"@),
            ("trace_open_enter"@, false, "sys_enter_open"@),
            ("trace_open_exit"@, false, "sys_exit_open"@),
            ("trace_creat_enter"@, false, "sys_enter_creat"@),
            ("trace_creat_exit"@, false, "sys_exit_creat"@),
            ("trace_unlink_enter"@, false, "sys_enter_unlink"@),
            ("trace_unlink_exit"@, false, "sys_exit_unlink"@),
            ("trace_rmdir_enter"@, false, "sys_enter_rmdir"@),
            ("trace_rmdir_exit"@, false, "sys_exit_rmdir"@),
            ("trace_mkdir_enter"@, false, "sys_enter_mkdir"@),
            ("trace_mkdir_exit"@, false, "sys_exit_mkdir"@),
            ("trace_rename_enter"@, false, "sys_enter_rename"@),
            ("trace_rename_exit"@, false, "sys_exit_rename"@),
        ],
        Tracer::ProcNet => seq![
            ("trace_bind_enter"@, true, "failed to attach trace_bind_enter"@),
            ("trace_bind_exit"@, true, "failed to attach trace_bind_exit"@),
            ("trace_listen_enter"@, true, "failed to attach trace_listen_enter"@),
            ("trace_listen_exit"@, true, "failed to attach trace_listen_exit"@),
            ("trace_connect_enter"@, true, "failed to attach trace_connect_enter"@),
            ("trace_connect_exit"@, true, "failed to attach trace_connect_exit"@),
        ],
        Tracer::ProcSig => seq![
            ("trace_setpgid_enter"@, true, "failed to attach trace_setpgid_enter"@),
            ("trace_setpgid_exit"@, true, "failed to attach trace_setpgid_exit"@),
            ("trace_setsid_enter"@, true, "failed to attach trace_setsid_enter"@),
            ("trace_setsid_exit"@, true, "failed to attach trace_setsid_exit"@),
            ("trace_kill_enter"@, true, "failed to attach trace_kill_enter"@),
            ("trace_kill_exit"@, true, "failed to attach trace_kill_exit"@),
            ("trace_fork"@, true, "failed to attach trace_fork"@),
            ("trace_clone_exit"@, true, "failed to attach trace_clone_exit"@),
            ("trace_clone3_exit"@, true, "failed to attach trace_clone3_exit"@),
            ("trace_vfork_exit"@, true, "failed to attach trace_vfork_exit"@),
            ("trace_fork_exit"@, false, "sys_exit_fork"@),
        ],
        Tracer::TcpDiag => seq![
            (
                "handle_inet_sock_set_state"@,
                true,
                "failed to attach handle_inet_sock_set_state"@,
            ),
            ("handle_tcp_retransmit_skb"@, true, "failed to attach handle_tcp_retransmit_skb"@),
            ("handle_tcp_receive_reset"@, true, "failed to attach handle_tcp_receive_reset"@),
        ],
        Tracer::UdpDns => seq![
            ("trace_udp_sendmsg"@, true, "failed to attach udp_sendmsg fentry"@),
        ],
    }
}

fn required(program: &'static str, label: &'static str) -> (r: AttachPoint)
    ensures
        r@ == (program@, true, label@),
{
    AttachPoint { program, required: true, label }
}

fn legacy(program: &'static str, label: &'static str) -> (r: AttachPoint)
    ensures
        r@ == (program@, false, label@),
{
    AttachPoint { program, required: false, label }
}

fn procfs_points() -> (r: Vec<AttachPoint>)
    ensures
        views(r@) == points_of(Tracer::ProcFs),
{
    let r = vec![
        required("trace_unlinkat_enter", "failed to attach trace_unlinkat_enter"),
        required("trace_unlinkat_exit", "failed to attach trace_unlinkat_exit"),
        required("trace_renameat2_enter", "failed to attach trace_renameat2_enter"),
        required("trace_renameat2_exit", "failed to attach trace_renameat2_exit"),
        required("trace_mkdirat_enter", "failed to attach trace_mkdirat_enter"),
        required("trace_mkdirat_exit", "failed to attach trace_mkdirat_exit"),
        required("trace_ftruncate_enter", "failed to attach trace_ftruncate_enter"),
        required("trace_ftruncate_exit", "failed to attach trace_ftruncate_exit"),
        required("trace_chdir_enter", "failed to attach trace_chdir_enter"),
        required("trace_chdir_exit", "failed to attach trace_chdir_exit"),
        required("trace_openat_enter", "failed to attach trace_openat_enter"),
        required("trace_openat_exit", "failed to attach trace_openat_exit"),
        legacy("trace_open_enter", "sys_enter_open"),
        legacy("trace_open_exit", "sys_exit_open"),
        legacy("trace_creat_enter", "sys_enter_creat"),
        legacy("trace_creat_exit", "sys_exit_creat"),
        legacy("trace_unlink_enter", "sys_enter_unlink"),
        legacy("trace_unlink_exit", "sys_exit_unlink"),
        legacy("trace_rmdir_enter", "sys_enter_rmdir"),
        legacy("trace_rmdir_exit", "sys_exit_rmdir"),
        legacy("trace_mkdir_enter", "sys_enter_mkdir"),
        legacy("trace_mkdir_exit", "sys_exit_mkdir"),
        legacy("trace_rename_enter", "sys_enter_rename"),
        legacy("trace_rename_exit", "sys_exit_rename"),
    ];
    assert(views(r@) =~= points_of(Tracer::ProcFs));
    r
}

fn procnet_points() -> (r: Vec<AttachPoint>)
    ensures
        views(r@) == points_of(Tracer::ProcNet),
{
    let r = vec![
        required("trace_bind_enter", "failed to attach trace_bind_enter"),
        required("trace_bind_exit", "failed to attach trace_bind_exit"),
        required("trace_listen_enter", "failed to attach trace_listen_enter"),
        required("trace_listen_exit", "failed to attach trace_listen_exit"),
        required("trace_connect_enter", "failed to attach trace_connect_enter"),
        required("trace_connect_exit", "failed to attach trace_connect_exit"),
    ];
    assert(views(r@) =~= points_of(Tracer::ProcNet));
    r
}

fn procsig_points() -> (r: Vec<AttachPoint>)
    ensures
        views(r@) == points_of(Tracer::ProcSig),
{
    let r = vec![
        required("trace_setpgid_enter", "failed to attach trace_setpgid_enter"),
        required("trace_setpgid_exit", "failed to attach trace_setpgid_exit"),
        required("trace_setsid_enter", "failed to attach trace_setsid_enter"),
        required("trace_setsid_exit", "failed to attach trace_setsid_exit"),
        required("trace_kill_enter", "failed to attach trace_kill_enter"),
        required("trace_kill_exit", "failed to attach trace_kill_exit"),
        required("trace_fork", "failed to attach trace_fork"),
        required("trace_clone_exit", "failed to attach trace_clone_exit"),
        required("trace_clone3_exit", "failed to attach trace_clone3_exit"),
        required("trace_vfork_exit", "failed to attach trace_vfork_exit"),
        legacy("trace_fork_exit", "sys_exit_fork"),
    ];
    assert(views(r@) =~= points_of(Tracer::ProcSig));
    r
}

fn tcpdiag_points() -> (r: Vec<AttachPoint>)
    ensures
        views(r@) == points_of(Tracer::TcpDiag),
{
    let r = vec![
        required("handle_inet_sock_set_state", "failed to attach handle_inet_sock_set_state"),
        required("handle_tcp_retransmit_skb", "failed to attach handle_tcp_retransmit_skb"),
        required("handle_tcp_receive_reset", "failed to attach handle_tcp_receive_reset"),
    ];
    assert(views(r@) =~= points_of(Tracer::TcpDiag));
    r
}

fn udpdns_points() -> (r: Vec<AttachPoint>)
    ensures
        views(r@) == points_of(Tracer::UdpDns),
{
    let r = vec![required("trace_udp_sendmsg", "failed to attach udp_sendmsg fentry")];
    assert(views(r@) =~= points_of(Tracer::UdpDns));
    r
}

/// The programs of a tracer, in the order in which they are attached.
pub fn attach_points(tracer: Tracer) -> (r: Vec<AttachPoint>)
    ensures
        views(r@) == points_of(tracer),
{
    match tracer {
        Tracer::ProcFs => procfs_points(),
        Tracer::ProcNet => procnet_points(),
        Tracer::ProcSig => procsig_points(),
        Tracer::TcpDiag => tcpdiag_points(),
        Tracer::UdpDns => udpdns_points(),
    }
}

/// Name of a tracer in messages.
pub open spec fn tracer_text(tracer: Tracer) -> Seq<char> {
    match tracer {
        Tracer::ProcFs => "procfs"@,
        Tracer::ProcNet => "procnet"@,
        Tracer::ProcSig => "procsig"@,
        Tracer::TcpDiag => "tcpdiag"@,
        Tracer::UdpDns => "udpdns"@,
    }
}

/// Name of a tracer in messages.
pub fn tracer_name(tracer: Tracer) -> (r: &'static str)
    ensures
        r@ == tracer_text(tracer),
        tracer is ProcFs ==> r@ == "procfs"@,
        tracer is ProcNet ==> r@ == "procnet"@,
        tracer is ProcSig ==> r@ == "procsig"@,
        tracer is TcpDiag ==> r@ == "tcpdiag"@,
        tracer is UdpDns ==> r@ == "udpdns"@,
{
    match tracer {
        Tracer::ProcFs => "procfs",
        Tracer::ProcNet => "procnet",
        Tracer::ProcSig => "procsig",
        Tracer::TcpDiag => "tcpdiag",
        Tracer::UdpDns => "udpdns",
    }
}

/// The warning for a legacy tracepoint that could not be attached.
pub open spec fn skip_warning(tracer: Tracer, label: Seq<char>, error: Seq<char>) -> Seq<char> {
    tracer_text(tracer) + ": skipping legacy tracepoint "@ + label
        + " (likely unsupported on this arch): "@ + error
}

/// Attaching the programs of one tracer, one after the other.
pub struct AttachRun {
    tracer: Tracer,
    points: Vec<AttachPoint>,
    tried: usize,
    linked: Vec<usize>,
    warnings: Vec<String>,
    failed: bool,
}

impl AttachRun {
    pub closed spec fn tracer(&self) -> Tracer {
        self.tracer
    }

    /// How many programs were tried.
    pub closed spec fn tried(&self) -> nat {
        self.tried as nat
    }

    /// The numbers of the programs that were attached.
    pub closed spec fn linked(&self) -> Seq<usize> {
        self.linked@
    }

    /// The warnings so far.
    pub closed spec fn warned(&self) -> Seq<Seq<char>> {
        text::texts(self.warnings@)
    }

    /// A required program could not be attached.
    pub closed spec fn failed(&self) -> bool {
        self.failed
    }

    /// The run follows the programs of its tracer, and every required one that
    /// was tried is attached, unless the run has failed.
    pub closed spec fn wf(&self) -> bool {
        &&& views(self.points@) == points_of(self.tracer)
        &&& self.tried <= self.points@.len()
        &&& forall|i: int|
            0 <= i < self.tried && (#[trigger] self.points@[i]).required ==> self.linked@.contains(
                i as usize,
            )
    }

    /// A run that has tried nothing.
    pub fn new(tracer: Tracer) -> (r: Self)
        ensures
            r.wf(),
            r.tracer() == tracer,
            r.tried() == 0,
            r.linked() == Seq::<usize>::empty(),
            r.warned() == Seq::<Seq<char>>::empty(),
            !r.failed(),
    {
        let r = AttachRun {
            tracer,
            points: attach_points(tracer),
            tried: 0,
            linked: Vec::new(),
            warnings: Vec::new(),
            failed: false,
        };
        assert(r.warned() =~= Seq::empty());
        r
    }

    /// The program to try next; `None` where the run is over.
    pub fn next_program(&self) -> (r: Option<&'static str>)
        requires
            self.wf(),
        ensures
            r is None <==> self.failed() || self.tried() == points_of(self.tracer()).len(),
            r matches Some(p) ==> p@ == points_of(self.tracer())[self.tried() as int].0,
    {
        assert(views(self.points@).len() == self.points@.len());
        if self.failed || self.tried == self.points.len() {
            None
        } else {
            assert(views(self.points@)[self.tried as int] == self.points@[self.tried as int]@);
            Some(self.points[self.tried].program)
        }
    }

    /// What is to be said of the programs that were passed over.
    pub fn warnings(&self) -> (r: &Vec<String>)
        ensures
            text::texts(r@) == self.warned(),
    {
        &self.warnings
    }

    /// Takes in what came of the program that was to be tried: `None` where it
    /// was attached, else the error. A required program that could not be
    /// attached ends the run with what went wrong; a legacy one is passed over
    /// with a warning.
    pub fn report(&mut self, error: Option<&str>) -> (r: Result<(), &'static str>)
        requires
            old(self).wf(),
            !old(self).failed(),
            old(self).tried() < points_of(old(self).tracer()).len(),
        ensures
            final(self).wf(),
            final(self).tracer() == old(self).tracer(),
            ({
                let point = points_of(old(self).tracer())[old(self).tried() as int];
                match error {
                    None => {
                        &&& r is Ok
                        &&& final(self).tried() == old(self).tried() + 1
                        &&& final(self).linked() == old(self).linked().push(
                            old(self).tried() as usize,
                        )
                        &&& final(self).warned() == old(self).warned()
                        &&& !final(self).failed()
                    },
                    Some(e) => if point.1 {
                        &&& r is Err
                        &&& r->Err_0@ == point.2
                        &&& final(self).failed()
                        &&& final(self).tried() == old(self).tried()
                        &&& final(self).linked() == old(self).linked()
                        &&& final(self).warned() == old(self).warned()
                    } else {
                        &&& r is Ok
                        &&& final(self).tried() == old(self).tried() + 1
                        &&& final(self).linked() == old(self).linked()
                        &&& final(self).warned() == old(self).warned().push(
                            skip_warning(old(self).tracer(), point.2, e@),
                        )
                        &&& !final(self).failed()
                        &&& final(self).warned()[old(self).warned().len() as int] == tracer_text(
                            old(self).tracer(),
                        ) + ": skipping legacy tracepoint "@ + point.2
                            + " (likely unsupported on this arch): "@ + e@
                    },
                }
            }),
    {
        let ghost before = *self;
        proof {
            assert(views(self.points@).len() == self.points@.len());
            assert(views(self.points@)[self.tried as int] == self.points@[self.tried as int]@);
        }
        let point = self.points[self.tried];
        match error {
            None => {
                self.linked.push(self.tried);
                self.tried = self.tried + 1;
                proof {
                    let n = before.linked@.len() as int;
                    assert(self.linked@[n] == before.tried);
                    assert forall|i: int|
                        0 <= i < self.tried && (#[trigger] self.points@[i]).required
                            implies self.linked@.contains(
                    i as usize) by {
                        if i < before.tried {
                            let j = before.linked@.index_of(i as usize);
                            assert(before.linked@.contains(i as usize));
                            assert(self.linked@[j] == before.linked@[j]);
                        }
                    }
                }
                Ok(())
            },
            Some(e) => {
                if point.required {
                    self.failed = true;
                    return Err(point.label);
                }
                let mut w = cat3(
                    tracer_name(self.tracer),
                    ": skipping legacy tracepoint ",
                    point.label,
                );
                w.append(" (likely unsupported on this arch): ");
                w.append(e);
                self.warnings.push(w);
                self.tried = self.tried + 1;
                assert(self.warned() =~= before.warned().push(w@));
                Ok(())
            },
        }
    }
}

/// A run that is over without a failure has attached every required program.
pub proof fn finished_run_has_all_required(run: AttachRun, i: int)
    requires
        run.wf(),
        !run.failed(),
        run.tried() == points_of(run.tracer()).len(),
        0 <= i < points_of(run.tracer()).len(),
        points_of(run.tracer())[i].1,
    ensures
        run.linked().contains(i as usize),
{
    assert(views(run.points@)[i] == run.points@[i]@);
    assert(run.points@[i].required);
}

// ---- laws -----------------------------------------------------------------------
/// The program at the entry of a system call: a required one fails by its name, a
/// legacy one goes by its tracepoint.
pub open spec fn entry_point(call: Seq<char>, required: bool) -> (Seq<char>, bool, Seq<char>) {
    (
        "trace_"@ + call + "_enter"@,
        required,
        if required {
            "failed to attach "@ + ("trace_"@ + call + "_enter"@)
        } else {
            "sys_enter_"@ + call
        },
    )
}

/// The program at the exit of a system call.
pub open spec fn exit_point(call: Seq<char>, required: bool) -> (Seq<char>, bool, Seq<char>) {
    (
        "trace_"@ + call + "_exit"@,
        required,
        if required {
            "failed to attach "@ + ("trace_"@ + call + "_exit"@)
        } else {
            "sys_exit_"@ + call
        },
    )
}

/// The calls that are traced where files are changed; the later half of them is
/// legacy.
pub open spec fn file_calls() -> Seq<Seq<char>> {
    seq![
        "unlinkat"@, "renameat2"@, "mkdirat"@, "ftruncate"@, "chdir"@, "openat"@,
        "open"@, "creat"@, "unlink"@, "rmdir"@, "mkdir"@, "rename"@,
    ]
}

/// File calls are traced in pairs, entry before exit. The calls that every
/// architecture has are required, the others are not.
pub proof fn file_calls_are_traced_in_pairs(k: int)
    requires
        0 <= k < 12,
    ensures
        points_of(Tracer::ProcFs).len() == 24,
        points_of(Tracer::ProcFs)[2 * k] == entry_point(file_calls()[k], k < 6),
        points_of(Tracer::ProcFs)[2 * k + 1] == exit_point(file_calls()[k], k < 6),
{
    lemma_pair_unlinkat();
    lemma_pair_renameat2();
    lemma_pair_mkdirat();
    lemma_pair_ftruncate();
    lemma_pair_chdir();
    lemma_pair_openat();
    lemma_pair_open();
    lemma_pair_creat();
    lemma_pair_unlink();
    lemma_pair_rmdir();
    lemma_pair_mkdir();
    lemma_pair_rename();
}

/// Network calls are traced in pairs, and all of them are required.
pub proof fn network_calls_are_traced_in_pairs(k: int)
    requires
        0 <= k < 3,
    ensures
        points_of(Tracer::ProcNet).len() == 6,
        points_of(Tracer::ProcNet)[2 * k]
            == entry_point(seq!["bind"@, "listen"@, "connect"@][k], true),
        points_of(Tracer::ProcNet)[2 * k + 1]
            == exit_point(seq!["bind"@, "listen"@, "connect"@][k], true),
{
    lemma_pair_bind();
    lemma_pair_listen();
    lemma_pair_connect();
}

/// Calls on groups, sessions and signals are traced in pairs; of the calls that
/// start processes the exits are, and only that of the oldest one is legacy.
pub proof fn signal_calls_are_traced(k: int)
    requires
        0 <= k < 3,
    ensures
        points_of(Tracer::ProcSig).len() == 11,
        points_of(Tracer::ProcSig)[2 * k]
            == entry_point(seq!["setpgid"@, "setsid"@, "kill"@][k], true),
        points_of(Tracer::ProcSig)[2 * k + 1]
            == exit_point(seq!["setpgid"@, "setsid"@, "kill"@][k], true),
        points_of(Tracer::ProcSig)[6].0 == "trace_fork"@,
        points_of(Tracer::ProcSig)[7 + k]
            == exit_point(seq!["clone"@, "clone3"@, "vfork"@][k], true),
        points_of(Tracer::ProcSig)[10] == exit_point("fork"@, false),
        forall|i: int| 0 <= i < 10 ==> (#[trigger] points_of(Tracer::ProcSig)[i]).1,
{
    lemma_pair_setpgid();
    lemma_pair_setsid();
    lemma_pair_kill();
    lemma_pair_clone();
    lemma_pair_clone3();
    lemma_pair_vfork();
    lemma_pair_fork();
}

/// Connections and queries are traced by required programs alone.
pub proof fn connections_and_queries_are_required(i: int)
    ensures
        points_of(Tracer::TcpDiag).len() == 3,
        points_of(Tracer::UdpDns).len() == 1,
        0 <= i < 3 ==> points_of(Tracer::TcpDiag)[i].1 && points_of(Tracer::TcpDiag)[i].2
            == "failed to attach "@ + points_of(Tracer::TcpDiag)[i].0,
        points_of(Tracer::TcpDiag)[0].0 == "handle_inet_sock_set_state"@,
        points_of(Tracer::TcpDiag)[1].0 == "handle_tcp_retransmit_skb"@,
        points_of(Tracer::TcpDiag)[2].0 == "handle_tcp_receive_reset"@,
        points_of(Tracer::UdpDns)[0].0 == "trace_udp_sendmsg"@,
        points_of(Tracer::UdpDns)[0].1,
{
    reveal_strlit("failed to attach ");
    reveal_strlit("handle_inet_sock_set_state");
    reveal_strlit("handle_tcp_retransmit_skb");
    reveal_strlit("handle_tcp_receive_reset");
    reveal_strlit("failed to attach handle_inet_sock_set_state");
    reveal_strlit("failed to attach handle_tcp_retransmit_skb");
    reveal_strlit("failed to attach handle_tcp_receive_reset");
    let p = points_of(Tracer::TcpDiag);
    assert(p[0].2 =~= "failed to attach "@ + p[0].0);
    assert(p[1].2 =~= "failed to attach "@ + p[1].0);
    assert(p[2].2 =~= "failed to attach "@ + p[2].0);
}

proof fn lemma_pair_unlinkat()
    ensures
        entry_point("unlinkat"@, true)
            == ("trace_unlinkat_enter"@, true, "failed to attach trace_unlinkat_enter"@),
        exit_point("unlinkat"@, true) == ("trace_unlinkat_exit"@, true,
            "failed to attach trace_unlinkat_exit"@),
{
    reveal_strlit("trace_");
    reveal_strlit("_enter");
    reveal_strlit("_exit");
    reveal_strlit("failed to attach ");
    reveal_strlit("unlinkat");
    reveal_strlit("trace_unlinkat_enter");
    reveal_strlit("trace_unlinkat_exit");
    reveal_strlit("failed to attach trace_unlinkat_enter");
    reveal_strlit("failed to attach trace_unlinkat_exit");
    assert(entry_point("unlinkat"@, true).0 =~= "trace_unlinkat_enter"@);
    assert(exit_point("unlinkat"@, true).0 =~= "trace_unlinkat_exit"@);
    assert(entry_point("unlinkat"@, true).2 =~= "failed to attach trace_unlinkat_enter"@);
    assert(exit_point("unlinkat"@, true).2 =~= "failed to attach trace_unlinkat_exit"@);
}

proof fn lemma_pair_renameat2()
    ensures
        entry_point("renameat2"@, true)
            == ("trace_renameat2_enter"@, true, "failed to attach trace_renameat2_enter"@),
        exit_point("renameat2"@, true)
            == ("trace_renameat2_exit"@, true, "failed to attach trace_renameat2_exit"@),
{
    reveal_strlit("trace_");
    reveal_strlit("_enter");
    reveal_strlit("_exit");
    reveal_strlit("failed to attach ");
    reveal_strlit("renameat2");
    reveal_strlit("trace_renameat2_enter");
    reveal_strlit("trace_renameat2_exit");
    reveal_strlit("failed to attach trace_renameat2_enter");
    reveal_strlit("failed to attach trace_renameat2_exit");
    assert(entry_point("renameat2"@, true).0 =~= "trace_renameat2_enter"@);
    assert(exit_point("renameat2"@, true).0 =~= "trace_renameat2_exit"@);
    assert(entry_point("renameat2"@, true).2 =~= "failed to attach trace_renameat2_enter"@);
    assert(exit_point("renameat2"@, true).2 =~= "failed to attach trace_renameat2_exit"@);
}

proof fn lemma_pair_mkdirat()
    ensures
        entry_point("mkdirat"@, true) == ("trace_mkdirat_enter"@, true,
            "failed to attach trace_mkdirat_enter"@),
        exit_point("mkdirat"@, true) == ("trace_mkdirat_exit"@, true,
            "failed to attach trace_mkdirat_exit"@),
{
    reveal_strlit("trace_");
    reveal_strlit("_enter");
    reveal_strlit("_exit");
    reveal_strlit("failed to attach ");
    reveal_strlit("mkdirat");
    reveal_strlit("trace_mkdirat_enter");
    reveal_strlit("trace_mkdirat_exit");
    reveal_strlit("failed to attach trace_mkdirat_enter");
    reveal_strlit("failed to attach trace_mkdirat_exit");
    assert(entry_point("mkdirat"@, true).0 =~= "trace_mkdirat_enter"@);
    assert(exit_point("mkdirat"@, true).0 =~= "trace_mkdirat_exit"@);
    assert(entry_point("mkdirat"@, true).2 =~= "failed to attach trace_mkdirat_enter"@);
    assert(exit_point("mkdirat"@, true).2 =~= "failed to attach trace_mkdirat_exit"@);
}

proof fn lemma_pair_ftruncate()
    ensures
        entry_point("ftruncate"@, true)
            == ("trace_ftruncate_enter"@, true, "failed to attach trace_ftruncate_enter"@),
        exit_point("ftruncate"@, true)
            == ("trace_ftruncate_exit"@, true, "failed to attach trace_ftruncate_exit"@),
{
    reveal_strlit("trace_");
    reveal_strlit("_enter");
    reveal_strlit("_exit");
    reveal_strlit("failed to attach ");
    reveal_strlit("ftruncate");
    reveal_strlit("trace_ftruncate_enter");
    reveal_strlit("trace_ftruncate_exit");
    reveal_strlit("failed to attach trace_ftruncate_enter");
    reveal_strlit("failed to attach trace_ftruncate_exit");
    assert(entry_point("ftruncate"@, true).0 =~= "trace_ftruncate_enter"@);
    assert(exit_point("ftruncate"@, true).0 =~= "trace_ftruncate_exit"@);
    assert(entry_point("ftruncate"@, true).2 =~= "failed to attach trace_ftruncate_enter"@);
    assert(exit_point("ftruncate"@, true).2 =~= "failed to attach trace_ftruncate_exit"@);
}

proof fn lemma_pair_chdir()
    ensures
        entry_point("chdir"@, true) == ("trace_chdir_enter"@, true,
            "failed to attach trace_chdir_enter"@),
        exit_point("chdir"@, true) == ("trace_chdir_exit"@, true,
            "failed to attach trace_chdir_exit"@),
{
    reveal_strlit("trace_");
    reveal_strlit("_enter");
    reveal_strlit("_exit");
    reveal_strlit("failed to attach ");
    reveal_strlit("chdir");
    reveal_strlit("trace_chdir_enter");
    reveal_strlit("trace_chdir_exit");
    reveal_strlit("failed to attach trace_chdir_enter");
    reveal_strlit("failed to attach trace_chdir_exit");
    assert(entry_point("chdir"@, true).0 =~= "trace_chdir_enter"@);
    assert(exit_point("chdir"@, true).0 =~= "trace_chdir_exit"@);
    assert(entry_point("chdir"@, true).2 =~= "failed to attach trace_chdir_enter"@);
    assert(exit_point("chdir"@, true).2 =~= "failed to attach trace_chdir_exit"@);
}

proof fn lemma_pair_openat()
    ensures
        entry_point("openat"@, true) == ("trace_openat_enter"@, true,
            "failed to attach trace_openat_enter"@),
        exit_point("openat"@, true) == ("trace_openat_exit"@, true,
            "failed to attach trace_openat_exit"@),
{
    reveal_strlit("trace_");
    reveal_strlit("_enter");
    reveal_strlit("_exit");
    reveal_strlit("failed to attach ");
    reveal_strlit("openat");
    reveal_strlit("trace_openat_enter");
    reveal_strlit("trace_openat_exit");
    reveal_strlit("failed to attach trace_openat_enter");
    reveal_strlit("failed to attach trace_openat_exit");
    assert(entry_point("openat"@, true).0 =~= "trace_openat_enter"@);
    assert(exit_point("openat"@, true).0 =~= "trace_openat_exit"@);
    assert(entry_point("openat"@, true).2 =~= "failed to attach trace_openat_enter"@);
    assert(exit_point("openat"@, true).2 =~= "failed to attach trace_openat_exit"@);
}

proof fn lemma_pair_open()
    ensures
        entry_point("open"@, false) == ("trace_open_enter"@, false, "sys_enter_open"@),
        exit_point("open"@, false) == ("trace_open_exit"@, false, "sys_exit_open"@),
{
    reveal_strlit("trace_");
    reveal_strlit("_enter");
    reveal_strlit("_exit");
    reveal_strlit("sys_enter_");
    reveal_strlit("sys_exit_");
    reveal_strlit("open");
    reveal_strlit("trace_open_enter");
    reveal_strlit("trace_open_exit");
    reveal_strlit("sys_enter_open");
    reveal_strlit("sys_exit_open");
    assert(entry_point("open"@, false).0 =~= "trace_open_enter"@);
    assert(exit_point("open"@, false).0 =~= "trace_open_exit"@);
    assert(entry_point("open"@, false).2 =~= "sys_enter_open"@);
    assert(exit_point("open"@, false).2 =~= "sys_exit_open"@);
}

proof fn lemma_pair_creat()
    ensures
        entry_point("creat"@, false) == ("trace_creat_enter"@, false, "sys_enter_creat"@),
        exit_point("creat"@, false) == ("trace_creat_exit"@, false, "sys_exit_creat"@),
{
    reveal_strlit("trace_");
    reveal_strlit("_enter");
    reveal_strlit("_exit");
    reveal_strlit("sys_enter_");
    reveal_strlit("sys_exit_");
    reveal_strlit("creat");
    reveal_strlit("trace_creat_enter");
    reveal_strlit("trace_creat_exit");
    reveal_strlit("sys_enter_creat");
    reveal_strlit("sys_exit_creat");
    assert(entry_point("creat"@, false).0 =~= "trace_creat_enter"@);
    assert(exit_point("creat"@, false).0 =~= "trace_creat_exit"@);
    assert(entry_point("creat"@, false).2 =~= "sys_enter_creat"@);
    assert(exit_point("creat"@, false).2 =~= "sys_exit_creat"@);
}

proof fn lemma_pair_unlink()
    ensures
        entry_point("unlink"@, false) == ("trace_unlink_enter"@, false, "sys_enter_unlink"@),
        exit_point("unlink"@, false) == ("trace_unlink_exit"@, false, "sys_exit_unlink"@),
{
    reveal_strlit("trace_");
    reveal_strlit("_enter");
    reveal_strlit("_exit");
    reveal_strlit("sys_enter_");
    reveal_strlit("sys_exit_");
    reveal_strlit("unlink");
    reveal_strlit("trace_unlink_enter");
    reveal_strlit("trace_unlink_exit");
    reveal_strlit("sys_enter_unlink");
    reveal_strlit("sys_exit_unlink");
    assert(entry_point("unlink"@, false).0 =~= "trace_unlink_enter"@);
    assert(exit_point("unlink"@, false).0 =~= "trace_unlink_exit"@);
    assert(entry_point("unlink"@, false).2 =~= "sys_enter_unlink"@);
    assert(exit_point("unlink"@, false).2 =~= "sys_exit_unlink"@);
}

proof fn lemma_pair_rmdir()
    ensures
        entry_point("rmdir"@, false) == ("trace_rmdir_enter"@, false, "sys_enter_rmdir"@),
        exit_point("rmdir"@, false) == ("trace_rmdir_exit"@, false, "sys_exit_rmdir"@),
{
    reveal_strlit("trace_");
    reveal_strlit("_enter");
    reveal_strlit("_exit");
    reveal_strlit("sys_enter_");
    reveal_strlit("sys_exit_");
    reveal_strlit("rmdir");
    reveal_strlit("trace_rmdir_enter");
    reveal_strlit("trace_rmdir_exit");
    reveal_strlit("sys_enter_rmdir");
    reveal_strlit("sys_exit_rmdir");
    assert(entry_point("rmdir"@, false).0 =~= "trace_rmdir_enter"@);
    assert(exit_point("rmdir"@, false).0 =~= "trace_rmdir_exit"@);
    assert(entry_point("rmdir"@, false).2 =~= "sys_enter_rmdir"@);
    assert(exit_point("rmdir"@, false).2 =~= "sys_exit_rmdir"@);
}

proof fn lemma_pair_mkdir()
    ensures
        entry_point("mkdir"@, false) == ("trace_mkdir_enter"@, false, "sys_enter_mkdir"@),
        exit_point("mkdir"@, false) == ("trace_mkdir_exit"@, false, "sys_exit_mkdir"@),
{
    reveal_strlit("trace_");
    reveal_strlit("_enter");
    reveal_strlit("_exit");
    reveal_strlit("sys_enter_");
    reveal_strlit("sys_exit_");
    reveal_strlit("mkdir");
    reveal_strlit("trace_mkdir_enter");
    reveal_strlit("trace_mkdir_exit");
    reveal_strlit("sys_enter_mkdir");
    reveal_strlit("sys_exit_mkdir");
    assert(entry_point("mkdir"@, false).0 =~= "trace_mkdir_enter"@);
    assert(exit_point("mkdir"@, false).0 =~= "trace_mkdir_exit"@);
    assert(entry_point("mkdir"@, false).2 =~= "sys_enter_mkdir"@);
    assert(exit_point("mkdir"@, false).2 =~= "sys_exit_mkdir"@);
}

proof fn lemma_pair_rename()
    ensures
        entry_point("rename"@, false) == ("trace_rename_enter"@, false, "sys_enter_rename"@),
        exit_point("rename"@, false) == ("trace_rename_exit"@, false, "sys_exit_rename"@),
{
    reveal_strlit("trace_");
    reveal_strlit("_enter");
    reveal_strlit("_exit");
    reveal_strlit("sys_enter_");
    reveal_strlit("sys_exit_");
    reveal_strlit("rename");
    reveal_strlit("trace_rename_enter");
    reveal_strlit("trace_rename_exit");
    reveal_strlit("sys_enter_rename");
    reveal_strlit("sys_exit_rename");
    assert(entry_point("rename"@, false).0 =~= "trace_rename_enter"@);
    assert(exit_point("rename"@, false).0 =~= "trace_rename_exit"@);
    assert(entry_point("rename"@, false).2 =~= "sys_enter_rename"@);
    assert(exit_point("rename"@, false).2 =~= "sys_exit_rename"@);
}

proof fn lemma_pair_bind()
    ensures
        entry_point("bind"@, true) == ("trace_bind_enter"@, true,
            "failed to attach trace_bind_enter"@),
        exit_point("bind"@, true) == ("trace_bind_exit"@, true, "failed to attach trace_bind_exit"@),
{
    reveal_strlit("trace_");
    reveal_strlit("_enter");
    reveal_strlit("_exit");
    reveal_strlit("failed to attach ");
    reveal_strlit("bind");
    reveal_strlit("trace_bind_enter");
    reveal_strlit("trace_bind_exit");
    reveal_strlit("failed to attach trace_bind_enter");
    reveal_strlit("failed to attach trace_bind_exit");
    assert(entry_point("bind"@, true).0 =~= "trace_bind_enter"@);
    assert(exit_point("bind"@, true).0 =~= "trace_bind_exit"@);
    assert(entry_point("bind"@, true).2 =~= "failed to attach trace_bind_enter"@);
    assert(exit_point("bind"@, true).2 =~= "failed to attach trace_bind_exit"@);
}

proof fn lemma_pair_listen()
    ensures
        entry_point("listen"@, true) == ("trace_listen_enter"@, true,
            "failed to attach trace_listen_enter"@),
        exit_point("listen"@, true) == ("trace_listen_exit"@, true,
            "failed to attach trace_listen_exit"@),
{
    reveal_strlit("trace_");
    reveal_strlit("_enter");
    reveal_strlit("_exit");
    reveal_strlit("failed to attach ");
    reveal_strlit("listen");
    reveal_strlit("trace_listen_enter");
    reveal_strlit("trace_listen_exit");
    reveal_strlit("failed to attach trace_listen_enter");
    reveal_strlit("failed to attach trace_listen_exit");
    assert(entry_point("listen"@, true).0 =~= "trace_listen_enter"@);
    assert(exit_point("listen"@, true).0 =~= "trace_listen_exit"@);
    assert(entry_point("listen"@, true).2 =~= "failed to attach trace_listen_enter"@);
    assert(exit_point("listen"@, true).2 =~= "failed to attach trace_listen_exit"@);
}

proof fn lemma_pair_connect()
    ensures
        entry_point("connect"@, true) == ("trace_connect_enter"@, true,
            "failed to attach trace_connect_enter"@),
        exit_point("connect"@, true) == ("trace_connect_exit"@, true,
            "failed to attach trace_connect_exit"@),
{
    reveal_strlit("trace_");
    reveal_strlit("_enter");
    reveal_strlit("_exit");
    reveal_strlit("failed to attach ");
    reveal_strlit("connect");
    reveal_strlit("trace_connect_enter");
    reveal_strlit("trace_connect_exit");
    reveal_strlit("failed to attach trace_connect_enter");
    reveal_strlit("failed to attach trace_connect_exit");
    assert(entry_point("connect"@, true).0 =~= "trace_connect_enter"@);
    assert(exit_point("connect"@, true).0 =~= "trace_connect_exit"@);
    assert(entry_point("connect"@, true).2 =~= "failed to attach trace_connect_enter"@);
    assert(exit_point("connect"@, true).2 =~= "failed to attach trace_connect_exit"@);
}

proof fn lemma_pair_setpgid()
    ensures
        entry_point("setpgid"@, true) == ("trace_setpgid_enter"@, true,
            "failed to attach trace_setpgid_enter"@),
        exit_point("setpgid"@, true) == ("trace_setpgid_exit"@, true,
            "failed to attach trace_setpgid_exit"@),
{
    reveal_strlit("trace_");
    reveal_strlit("_enter");
    reveal_strlit("_exit");
    reveal_strlit("failed to attach ");
    reveal_strlit("setpgid");
    reveal_strlit("trace_setpgid_enter");
    reveal_strlit("trace_setpgid_exit");
    reveal_strlit("failed to attach trace_setpgid_enter");
    reveal_strlit("failed to attach trace_setpgid_exit");
    assert(entry_point("setpgid"@, true).0 =~= "trace_setpgid_enter"@);
    assert(exit_point("setpgid"@, true).0 =~= "trace_setpgid_exit"@);
    assert(entry_point("setpgid"@, true).2 =~= "failed to attach trace_setpgid_enter"@);
    assert(exit_point("setpgid"@, true).2 =~= "failed to attach trace_setpgid_exit"@);
}

proof fn lemma_pair_setsid()
    ensures
        entry_point("setsid"@, true) == ("trace_setsid_enter"@, true,
            "failed to attach trace_setsid_enter"@),
        exit_point("setsid"@, true) == ("trace_setsid_exit"@, true,
            "failed to attach trace_setsid_exit"@),
{
    reveal_strlit("trace_");
    reveal_strlit("_enter");
    reveal_strlit("_exit");
    reveal_strlit("failed to attach ");
    reveal_strlit("setsid");
    reveal_strlit("trace_setsid_enter");
    reveal_strlit("trace_setsid_exit");
    reveal_strlit("failed to attach trace_setsid_enter");
    reveal_strlit("failed to attach trace_setsid_exit");
    assert(entry_point("setsid"@, true).0 =~= "trace_setsid_enter"@);
    assert(exit_point("setsid"@, true).0 =~= "trace_setsid_exit"@);
    assert(entry_point("setsid"@, true).2 =~= "failed to attach trace_setsid_enter"@);
    assert(exit_point("setsid"@, true).2 =~= "failed to attach trace_setsid_exit"@);
}

proof fn lemma_pair_kill()
    ensures
        entry_point("kill"@, true) == ("trace_kill_enter"@, true,
            "failed to attach trace_kill_enter"@),
        exit_point("kill"@, true) == ("trace_kill_exit"@, true, "failed to attach trace_kill_exit"@),
{
    reveal_strlit("trace_");
    reveal_strlit("_enter");
    reveal_strlit("_exit");
    reveal_strlit("failed to attach ");
    reveal_strlit("kill");
    reveal_strlit("trace_kill_enter");
    reveal_strlit("trace_kill_exit");
    reveal_strlit("failed to attach trace_kill_enter");
    reveal_strlit("failed to attach trace_kill_exit");
    assert(entry_point("kill"@, true).0 =~= "trace_kill_enter"@);
    assert(exit_point("kill"@, true).0 =~= "trace_kill_exit"@);
    assert(entry_point("kill"@, true).2 =~= "failed to attach trace_kill_enter"@);
    assert(exit_point("kill"@, true).2 =~= "failed to attach trace_kill_exit"@);
}

proof fn lemma_pair_clone()
    ensures
        entry_point("clone"@, true) == ("trace_clone_enter"@, true,
            "failed to attach trace_clone_enter"@),
        exit_point("clone"@, true) == ("trace_clone_exit"@, true,
            "failed to attach trace_clone_exit"@),
{
    reveal_strlit("trace_");
    reveal_strlit("_enter");
    reveal_strlit("_exit");
    reveal_strlit("failed to attach ");
    reveal_strlit("clone");
    reveal_strlit("trace_clone_enter");
    reveal_strlit("trace_clone_exit");
    reveal_strlit("failed to attach trace_clone_enter");
    reveal_strlit("failed to attach trace_clone_exit");
    assert(entry_point("clone"@, true).0 =~= "trace_clone_enter"@);
    assert(exit_point("clone"@, true).0 =~= "trace_clone_exit"@);
    assert(entry_point("clone"@, true).2 =~= "failed to attach trace_clone_enter"@);
    assert(exit_point("clone"@, true).2 =~= "failed to attach trace_clone_exit"@);
}

proof fn lemma_pair_clone3()
    ensures
        entry_point("clone3"@, true) == ("trace_clone3_enter"@, true,
            "failed to attach trace_clone3_enter"@),
        exit_point("clone3"@, true) == ("trace_clone3_exit"@, true,
            "failed to attach trace_clone3_exit"@),
{
    reveal_strlit("trace_");
    reveal_strlit("_enter");
    reveal_strlit("_exit");
    reveal_strlit("failed to attach ");
    reveal_strlit("clone3");
    reveal_strlit("trace_clone3_enter");
    reveal_strlit("trace_clone3_exit");
    reveal_strlit("failed to attach trace_clone3_enter");
    reveal_strlit("failed to attach trace_clone3_exit");
    assert(entry_point("clone3"@, true).0 =~= "trace_clone3_enter"@);
    assert(exit_point("clone3"@, true).0 =~= "trace_clone3_exit"@);
    assert(entry_point("clone3"@, true).2 =~= "failed to attach trace_clone3_enter"@);
    assert(exit_point("clone3"@, true).2 =~= "failed to attach trace_clone3_exit"@);
}

proof fn lemma_pair_vfork()
    ensures
        entry_point("vfork"@, true) == ("trace_vfork_enter"@, true,
            "failed to attach trace_vfork_enter"@),
        exit_point("vfork"@, true) == ("trace_vfork_exit"@, true,
            "failed to attach trace_vfork_exit"@),
{
    reveal_strlit("trace_");
    reveal_strlit("_enter");
    reveal_strlit("_exit");
    reveal_strlit("failed to attach ");
    reveal_strlit("vfork");
    reveal_strlit("trace_vfork_enter");
    reveal_strlit("trace_vfork_exit");
    reveal_strlit("failed to attach trace_vfork_enter");
    reveal_strlit("failed to attach trace_vfork_exit");
    assert(entry_point("vfork"@, true).0 =~= "trace_vfork_enter"@);
    assert(exit_point("vfork"@, true).0 =~= "trace_vfork_exit"@);
    assert(entry_point("vfork"@, true).2 =~= "failed to attach trace_vfork_enter"@);
    assert(exit_point("vfork"@, true).2 =~= "failed to attach trace_vfork_exit"@);
}

proof fn lemma_pair_fork()
    ensures
        entry_point("fork"@, false) == ("trace_fork_enter"@, false, "sys_enter_fork"@),
        exit_point("fork"@, false) == ("trace_fork_exit"@, false, "sys_exit_fork"@),
{
    reveal_strlit("trace_");
    reveal_strlit("_enter");
    reveal_strlit("_exit");
    reveal_strlit("sys_enter_");
    reveal_strlit("sys_exit_");
    reveal_strlit("fork");
    reveal_strlit("trace_fork_enter");
    reveal_strlit("trace_fork_exit");
    reveal_strlit("sys_enter_fork");
    reveal_strlit("sys_exit_fork");
    assert(entry_point("fork"@, false).0 =~= "trace_fork_enter"@);
    assert(exit_point("fork"@, false).0 =~= "trace_fork_exit"@);
    assert(entry_point("fork"@, false).2 =~= "sys_enter_fork"@);
    assert(exit_point("fork"@, false).2 =~= "sys_exit_fork"@);
}

} // verus!
