//! Which probes run, and what becomes of the records they write.
//!
//! All probes write into one ring buffer. The first word of a record tells
//! which probe wrote it.

use vstd::prelude::*;
use vstd::slice::slice_to_vec;

use super::open_err;
use super::open_err::OpenErrAggregator;
use super::procfs::{ProcFsEvent, ProcFsLayout};
use super::procnet::{ProcNetEvent, ProcNetLayout};
use super::procsig::{ProcSigEvent, ProcSigLayout};
use super::record;
use super::record::{read_u32, ByteOrder};
use super::udpdns::{UdpDnsEvent, UdpDnsLayout};

verus! {

/// How long one poll of the ring buffer waits.
pub const POLL_TIMEOUT_MS: u64 = 100;

/// The probes. The process tracer always runs: it owns the maps that the
/// others share.
#[derive(Clone, Copy, Debug, PartialEq, Eq, Structural)]
pub enum Probe {
    ProcTrace,
    SslSniff,
    ProcMon,
    FileWatch,
    FileWrite,
    UdpDns,
    ProcFs,
    ProcNet,
    ProcSig,
}

/// Which optional probes are asked for. DNS capture is decided apart.
#[derive(Clone, Copy, Debug, PartialEq, Eq, Structural)]
pub struct ProbeConfig {
    pub sslsniff: bool,
    pub procmon: bool,
    pub filewatch: bool,
    pub filewrite: bool,
    pub procfs: bool,
    pub procnet: bool,
    pub procsig: bool,
}

/// How one probe is created.
#[derive(Clone, Copy, Debug, PartialEq, Eq, Structural)]
pub struct ProbeSetup {
    pub probe: Probe,
    /// Shares the map of traced processes.
    pub shares_processes: bool,
    /// Shares the map of traced cgroups.
    pub shares_cgroups: bool,
    /// Lets an event pass where its cgroup is traced.
    pub cgroup_filter: bool,
    /// Reports failed calls only.
    pub errors_only: bool,
}

/// A step of creating the probes.
#[derive(Clone, Debug, PartialEq, Eq)]
pub enum CreateStep {
    /// Create the process tracer. It traces these processes from the start, or
    /// where there are none all that match the user.
    Trace { setup: ProbeSetup, target_pids: Vec<u32>, target_uid: Option<u32> },
    Create(ProbeSetup),
    /// The probe is switched off: say so and go on.
    Disabled(Probe),
}

/// A step of creating the probes, as a value.
pub ghost enum Creation {
    Trace { setup: ProbeSetup, target_pids: Seq<u32>, target_uid: Option<u32> },
    Create(ProbeSetup),
    Disabled(Probe),
}

impl View for CreateStep {
    type V = Creation;

    open spec fn view(&self) -> Creation {
        match self {
            CreateStep::Trace { setup, target_pids, target_uid } => Creation::Trace {
                setup: *setup,
                target_pids: target_pids@,
                target_uid: *target_uid,
            },
            CreateStep::Create(setup) => Creation::Create(*setup),
            CreateStep::Disabled(probe) => Creation::Disabled(*probe),
        }
    }
}

/// A step of attaching to one process.
#[derive(Clone, Copy, Debug, PartialEq, Eq, Structural)]
pub enum ProcessStep {
    AttachSsl(i32),
    AddTracedPid(u32),
}

/// Where the records of the probes have their fields, and how long those of the
/// other probes are at least.
#[derive(Clone, Copy, Debug)]
pub struct RecordLayouts {
    pub order: ByteOrder,
    pub proctrace_size: usize,
    pub sslsniff_size: usize,
    pub procmon_size: usize,
    pub filewatch_size: usize,
    pub filewrite_size: usize,
    pub udpdns: UdpDnsLayout,
    pub procfs: ProcFsLayout,
    pub procnet: ProcNetLayout,
    pub procsig: ProcSigLayout,
}

impl RecordLayouts {
    /// Every field lies within its record.
    pub open spec fn wf(self) -> bool {
        &&& self.udpdns.wf()
        &&& self.procfs.wf()
        &&& self.procnet.wf()
        &&& self.procsig.wf()
    }

    /// Tells whether every field lies within its record.
    pub fn fits(&self) -> (r: bool)
        ensures
            r == self.wf(),
            r <==> {
                &&& self.udpdns.wf()
                &&& self.procfs.wf()
                &&& self.procnet.wf()
                &&& self.procsig.wf()
            },
    {
        self.udpdns.fits() && self.procfs.fits() && self.procnet.fits() && self.procsig.fits()
    }

    /// The least length of a record of a probe.
    pub open spec fn size_of(self, probe: Probe) -> usize {
        match probe {
            Probe::ProcTrace => self.proctrace_size,
            Probe::SslSniff => self.sslsniff_size,
            Probe::ProcMon => self.procmon_size,
            Probe::FileWatch => self.filewatch_size,
            Probe::FileWrite => self.filewrite_size,
            Probe::UdpDns => self.udpdns.size,
            Probe::ProcFs => self.procfs.size,
            Probe::ProcNet => self.procnet.size,
            Probe::ProcSig => self.procsig.size,
        }
    }

    fn record_size(&self, probe: Probe) -> (r: usize)
        ensures
            r == self.size_of(probe),
    {
        match probe {
            Probe::ProcTrace => self.proctrace_size,
            Probe::SslSniff => self.sslsniff_size,
            Probe::ProcMon => self.procmon_size,
            Probe::FileWatch => self.filewatch_size,
            Probe::FileWrite => self.filewrite_size,
            Probe::UdpDns => self.udpdns.size,
            Probe::ProcFs => self.procfs.size,
            Probe::ProcNet => self.procnet.size,
            Probe::ProcSig => self.procsig.size,
        }
    }
}

/// The probe that writes records with this first word.
pub open spec fn probe_of_source(source: nat) -> Option<Probe> {
    if source == 1 {
        Some(Probe::ProcTrace)
    } else if source == 2 {
        Some(Probe::SslSniff)
    } else if source == 3 {
        Some(Probe::ProcMon)
    } else if source == 4 {
        Some(Probe::FileWatch)
    } else if source == 5 {
        Some(Probe::FileWrite)
    } else if source == 6 {
        Some(Probe::UdpDns)
    } else if source == 7 {
        Some(Probe::ProcFs)
    } else if source == 8 {
        Some(Probe::ProcNet)
    } else if source == 9 {
        Some(Probe::ProcSig)
    } else {
        None
    }
}

fn source_probe(source: u32) -> (r: Option<Probe>)
    ensures
        r == probe_of_source(source as nat),
{
    match source {
        1 => Some(Probe::ProcTrace),
        2 => Some(Probe::SslSniff),
        3 => Some(Probe::ProcMon),
        4 => Some(Probe::FileWatch),
        5 => Some(Probe::FileWrite),
        6 => Some(Probe::UdpDns),
        7 => Some(Probe::ProcFs),
        8 => Some(Probe::ProcNet),
        9 => Some(Probe::ProcSig),
        _ => None,
    }
}

/// What is to be done with a record.
#[derive(Clone, Copy, Debug, PartialEq, Eq, Structural)]
pub enum Route {
    /// Too short, or of a probe that is switched off.
    Drop,
    /// Of no known probe; this is its first word.
    Unknown(u32),
    /// To be decoded as a record of this probe.
    Decode(Probe),
}

/// An event that was decoded here.
#[derive(Clone, Debug)]
pub enum ProbeEvent {
    UdpDns(UdpDnsEvent),
    ProcFs(ProcFsEvent),
    ProcNet(ProcNetEvent),
    ProcSig(ProcSigEvent),
}

/// What became of a record.
#[derive(Clone, Debug)]
pub enum Handled {
    /// Nothing is to be sent: the record was dropped or counted.
    Nothing,
    /// Of no known probe; this is its first word.
    Unknown(u32),
    /// Long enough for a record of this probe, which has its own decoder.
    DecodeAs(Probe),
    /// To be sent.
    Send(ProbeEvent),
}

/// The aggregation maps that are drained every flush interval, in the order of
/// the fields.
#[derive(Clone, Copy, Debug, PartialEq, Eq, Structural)]
pub struct FlushPlan {
    pub interval_ms: u64,
    pub connect: bool,
    pub fork: bool,
    pub open: bool,
    pub open_errors: bool,
}

/// What a poll of the ring buffer came to.
#[derive(Clone, Copy, Debug, PartialEq, Eq, Structural)]
pub enum PollResult {
    Polled,
    Interrupted,
    Failed,
}

/// What the polling thread does next.
#[derive(Clone, Copy, Debug, PartialEq, Eq, Structural)]
pub enum PollStep {
    Poll,
    Stop,
    /// Stop, and say that polling failed.
    StopFailed,
}

/// The set of probes that run.
pub struct Probes {
    target_pids: Vec<u32>,
    target_uid: Option<u32>,
    config: ProbeConfig,
    udpdns: bool,
    cgroup_filter: bool,
    errors_only: bool,
    open_err_agg: Option<OpenErrAggregator>,
}

/// The probe is among those that run.
pub open spec fn runs(config: ProbeConfig, udpdns: bool, probe: Probe) -> bool {
    match probe {
        Probe::ProcTrace => true,
        Probe::SslSniff => config.sslsniff,
        Probe::ProcMon => config.procmon,
        Probe::FileWatch => config.filewatch,
        Probe::FileWrite => config.filewrite,
        Probe::UdpDns => udpdns,
        Probe::ProcFs => config.procfs,
        Probe::ProcNet => config.procnet,
        Probe::ProcSig => config.procsig,
    }
}

/// How a probe is created. Process monitoring sees the whole system, SSL
/// capture and DNS capture go by the traced processes alone, and only the
/// extended process probes can be told to report failures only.
pub open spec fn setup_of(probe: Probe, cgroup_filter: bool, errors_only: bool) -> ProbeSetup {
    ProbeSetup {
        probe,
        shares_processes: probe != Probe::ProcTrace && probe != Probe::ProcMon,
        shares_cgroups: cgroup_filter && (probe == Probe::FileWatch || probe == Probe::FileWrite
            || probe == Probe::ProcFs || probe == Probe::ProcNet || probe == Probe::ProcSig),
        cgroup_filter: cgroup_filter && (probe == Probe::ProcTrace || probe == Probe::FileWatch
            || probe == Probe::FileWrite || probe == Probe::ProcFs || probe == Probe::ProcNet
            || probe == Probe::ProcSig),
        errors_only: errors_only && (probe == Probe::ProcFs || probe == Probe::ProcNet || probe
            == Probe::ProcSig),
    }
}

/// The order in which probes are created.
pub open spec fn creation_order() -> Seq<Probe> {
    seq![
        Probe::ProcTrace,
        Probe::SslSniff,
        Probe::ProcMon,
        Probe::FileWatch,
        Probe::FileWrite,
        Probe::UdpDns,
        Probe::ProcFs,
        Probe::ProcNet,
        Probe::ProcSig,
    ]
}

/// The order in which probes are attached. SSL capture is attached process by
/// process.
pub open spec fn attach_order() -> Seq<Probe> {
    seq![
        Probe::ProcMon,
        Probe::ProcTrace,
        Probe::FileWatch,
        Probe::FileWrite,
        Probe::UdpDns,
        Probe::ProcFs,
        Probe::ProcNet,
        Probe::ProcSig,
    ]
}

/// What is to be done with a record.
pub open spec fn route(
    config: ProbeConfig,
    udpdns: bool,
    l: RecordLayouts,
    data: Seq<u8>,
) -> Route {
    if data.len() < 4 {
        Route::Drop
    } else {
        let source = record::number_at(data, 0, 4, l.order);
        match probe_of_source(source) {
            None => Route::Unknown(source as u32),
            Some(probe) => if runs(config, udpdns, probe) && data.len() >= l.size_of(probe) {
                Route::Decode(probe)
            } else {
                Route::Drop
            },
        }
    }
}

/// What becomes of a record: `before` and `after` are the failed opens that are
/// held back.
pub open spec fn record_handled<F: Fn(u64) -> u64>(
    route: Route,
    l: RecordLayouts,
    data: Seq<u8>,
    clock: F,
    before: Map<open_err::OpenErrKey, open_err::OpenErrTotal>,
    after: Map<open_err::OpenErrKey, open_err::OpenErrTotal>,
    r: Handled,
) -> bool {
    match route {
        Route::Drop => r is Nothing && after == before,
        Route::Unknown(source) => r == Handled::Unknown(source) && after == before,
        Route::Decode(probe) => match probe {
            Probe::UdpDns => {
                &&& after == before
                &&& match r {
                    Handled::Nothing => UdpDnsEvent::parsed(data, l.udpdns, clock, None),
                    Handled::Send(ProbeEvent::UdpDns(e)) => UdpDnsEvent::parsed(
                        data,
                        l.udpdns,
                        clock,
                        Some(e),
                    ),
                    _ => false,
                }
            },
            Probe::ProcFs => match r {
                // A failed open is held back and counted.
                Handled::Nothing => exists|e: ProcFsEvent|
                    {
                        &&& #[trigger] ProcFsEvent::parsed(data, l.procfs, clock, Some(e))
                        &&& open_err::is_open_failure(e)
                        &&& after == open_err::groups_after(before, e)
                    },
                Handled::Send(ProbeEvent::ProcFs(e)) => {
                    &&& ProcFsEvent::parsed(data, l.procfs, clock, Some(e))
                    &&& !open_err::is_open_failure(e)
                    &&& after == before
                },
                _ => false,
            },
            Probe::ProcNet => {
                &&& after == before
                &&& r matches Handled::Send(ProbeEvent::ProcNet(e)) && ProcNetEvent::parsed(
                    data,
                    l.procnet,
                    clock,
                    Some(e),
                )
            },
            Probe::ProcSig => {
                &&& after == before
                &&& r matches Handled::Send(ProbeEvent::ProcSig(e)) && ProcSigEvent::parsed(
                    data,
                    l.procsig,
                    clock,
                    Some(e),
                )
            },
            other => r == Handled::DecodeAs(other) && after == before,
        },
    }
}

impl Probes {
    /// The processes that are traced from the start.
    pub closed spec fn target_pids(&self) -> Seq<u32> {
        self.target_pids@
    }

    /// The user whose processes are traced.
    pub closed spec fn target_uid(&self) -> Option<u32> {
        self.target_uid
    }

    pub closed spec fn config(&self) -> ProbeConfig {
        self.config
    }

    pub closed spec fn udpdns(&self) -> bool {
        self.udpdns
    }

    pub closed spec fn cgroup_filter(&self) -> bool {
        self.cgroup_filter
    }

    pub closed spec fn errors_only(&self) -> bool {
        self.errors_only
    }

    /// The failed opens that are held back.
    pub closed spec fn held(&self) -> Map<open_err::OpenErrKey, open_err::OpenErrTotal> {
        match self.open_err_agg {
            Some(agg) => agg@,
            None => Map::empty(),
        }
    }

    /// Failed opens are held back where the filesystem probe runs.
    pub closed spec fn wf(&self) -> bool {
        &&& self.open_err_agg is Some <==> self.config.procfs
        &&& self.open_err_agg matches Some(agg) ==> agg.wf()
    }

    /// The step that creates a probe or passes it over. Only the process tracer
    /// is told what to trace: the others share its map.
    pub open spec fn creation(&self, probe: Probe) -> Creation {
        let setup = setup_of(probe, self.cgroup_filter(), self.errors_only());
        if probe == Probe::ProcTrace {
            Creation::Trace {
                setup,
                target_pids: self.target_pids(),
                target_uid: self.target_uid(),
            }
        } else if runs(self.config(), self.udpdns(), probe) {
            Creation::Create(setup)
        } else {
            Creation::Disabled(probe)
        }
    }

    /// The default probes, but for file watching and DNS capture, which are
    /// asked for.
    pub fn new(
        target_pids: &[u32],
        target_uid: Option<u32>,
        defaults: ProbeConfig,
        enable_filewatch: bool,
        enable_udpdns: bool,
    ) -> (r: Self)
        ensures
            r.wf(),
            r.target_pids() == target_pids@,
            r.target_uid() == target_uid,
            r.config() == (ProbeConfig { filewatch: enable_filewatch, ..defaults }),
            r.udpdns() == enable_udpdns,
            !r.cgroup_filter(),
            !r.errors_only(),
            r.held() == Map::<open_err::OpenErrKey, open_err::OpenErrTotal>::empty(),
    {
        let config = ProbeConfig { filewatch: enable_filewatch, ..defaults };
        Probes::new_with_cgroup_filter(
            target_pids,
            target_uid,
            &config,
            enable_udpdns,
            false,
            false,
        )
    }

    /// The probes that `config` asks for. `target_pids` are traced from the
    /// start; where there are none, all processes that match `target_uid` are.
    /// With the cgroup filter, probes that honour it also report processes whose
    /// cgroup is traced.
    pub fn new_with_cgroup_filter(
        target_pids: &[u32],
        target_uid: Option<u32>,
        config: &ProbeConfig,
        enable_udpdns: bool,
        cgroup_filter_enabled: bool,
        proc_ext_errors_only: bool,
    ) -> (r: Self)
        ensures
            r.wf(),
            r.target_pids() == target_pids@,
            r.target_uid() == target_uid,
            r.config() == *config,
            r.udpdns() == enable_udpdns,
            r.cgroup_filter() == cgroup_filter_enabled,
            r.errors_only() == proc_ext_errors_only,
            r.held() == Map::<open_err::OpenErrKey, open_err::OpenErrTotal>::empty(),
    {
        let open_err_agg = if config.procfs {
            Some(OpenErrAggregator::new())
        } else {
            None
        };
        Probes {
            target_pids: slice_to_vec(target_pids),
            target_uid,
            config: *config,
            udpdns: enable_udpdns,
            cgroup_filter: cgroup_filter_enabled,
            errors_only: proc_ext_errors_only,
            open_err_agg,
        }
    }

    /// The probe is among those that run.
    pub fn is_running(&self, probe: Probe) -> (r: bool)
        ensures
            r == runs(self.config(), self.udpdns(), probe),
            probe is ProcTrace ==> r,
            probe is SslSniff ==> r == self.config().sslsniff,
            probe is ProcMon ==> r == self.config().procmon,
            probe is FileWatch ==> r == self.config().filewatch,
            probe is FileWrite ==> r == self.config().filewrite,
            probe is UdpDns ==> r == self.udpdns(),
            probe is ProcFs ==> r == self.config().procfs,
            probe is ProcNet ==> r == self.config().procnet,
            probe is ProcSig ==> r == self.config().procsig,
    {
        match probe {
            Probe::ProcTrace => true,
            Probe::SslSniff => self.config.sslsniff,
            Probe::ProcMon => self.config.procmon,
            Probe::FileWatch => self.config.filewatch,
            Probe::FileWrite => self.config.filewrite,
            Probe::UdpDns => self.udpdns,
            Probe::ProcFs => self.config.procfs,
            Probe::ProcNet => self.config.procnet,
            Probe::ProcSig => self.config.procsig,
        }
    }

    fn create(&self, probe: Probe) -> (r: CreateStep)
        ensures
            r@ == self.creation(probe),
            r@ is Trace <==> probe is ProcTrace,
            r@ is Trace ==> r@->target_pids == self.target_pids() && r@->target_uid
                == self.target_uid(),
            r@ is Disabled ==> r@->Disabled_0 == probe,
            r@ is Create ==> r@->Create_0.probe == probe,
    {
        let extended: bool = probe == Probe::ProcFs || probe == Probe::ProcNet || probe
            == Probe::ProcSig;
        let file: bool = probe == Probe::FileWatch || probe == Probe::FileWrite;
        let tracer: bool = probe == Probe::ProcTrace;
        let setup = ProbeSetup {
            probe,
            shares_processes: !tracer && probe != Probe::ProcMon,
            shares_cgroups: self.cgroup_filter && (file || extended),
            cgroup_filter: self.cgroup_filter && (tracer || file || extended),
            errors_only: self.errors_only && extended,
        };
        if tracer {
            CreateStep::Trace {
                setup,
                target_pids: slice_to_vec(self.target_pids.as_slice()),
                target_uid: self.target_uid,
            }
        } else if self.is_running(probe) {
            CreateStep::Create(setup)
        } else {
            CreateStep::Disabled(probe)
        }
    }

    /// The steps that create the probes, in order: the process tracer first,
    /// with what it is to trace.
    pub fn creation_steps(&self) -> (r: Vec<CreateStep>)
        ensures
            r@.len() == creation_order().len(),
            forall|i: int|
                0 <= i < r@.len() ==> (#[trigger] r@[i])@ == self.creation(creation_order()[i]),
            r@[0]@ == (Creation::Trace {
                setup: setup_of(Probe::ProcTrace, self.cgroup_filter(), self.errors_only()),
                target_pids: self.target_pids(),
                target_uid: self.target_uid(),
            }),
    {
        vec![
            self.create(Probe::ProcTrace),
            self.create(Probe::SslSniff),
            self.create(Probe::ProcMon),
            self.create(Probe::FileWatch),
            self.create(Probe::FileWrite),
            self.create(Probe::UdpDns),
            self.create(Probe::ProcFs),
            self.create(Probe::ProcNet),
            self.create(Probe::ProcSig),
        ]
    }

    /// The probes to attach, in order.
    pub fn attach(&self) -> (r: Vec<Probe>)
        ensures
            r@ == attach_order().filter(|p: Probe| runs(self.config(), self.udpdns(), p)),
    {
        let order: Vec<Probe> = vec![
            Probe::ProcMon,
            Probe::ProcTrace,
            Probe::FileWatch,
            Probe::FileWrite,
            Probe::UdpDns,
            Probe::ProcFs,
            Probe::ProcNet,
            Probe::ProcSig,
        ];
        assert(order@ =~= attach_order());
        let ghost keep = |p: Probe| runs(self.config(), self.udpdns(), p);
        let mut r: Vec<Probe> = Vec::new();
        let mut i: usize = 0;
        proof {
            assert(order@.take(0).filter(keep) =~= Seq::empty()) by {
                reveal(Seq::filter);
            }
        }
        while i < order.len()
            invariant
                i <= order@.len(),
                keep == (|p: Probe| runs(self.config(), self.udpdns(), p)),
                r@ == order@.take(i as int).filter(keep),
            decreases order@.len() - i,
        {
            proof {
                reveal(Seq::filter);
                assert(order@.take(i + 1).drop_last() =~= order@.take(i as int));
            }
            if self.is_running(order[i]) {
                r.push(order[i]);
            }
            i = i + 1;
        }
        assert(order@.take(i as int) =~= order@);
        r
    }

    /// The steps that attach to one process: SSL capture first, where it runs,
    /// then the process counts as traced.
    pub fn attach_process(&self, pid: i32) -> (r: Vec<ProcessStep>)
        ensures
            r@ == (if self.config().sslsniff {
                seq![ProcessStep::AttachSsl(pid), ProcessStep::AddTracedPid(pid as u32)]
            } else {
                seq![ProcessStep::AddTracedPid(pid as u32)]
            }),
    {
        if self.config.sslsniff {
            vec![ProcessStep::AttachSsl(pid), ProcessStep::AddTracedPid(pid as u32)]
        } else {
            vec![ProcessStep::AddTracedPid(pid as u32)]
        }
    }

    /// What is to be done with a record.
    pub fn route_record(&self, data: &[u8], layouts: &RecordLayouts) -> (r: Route)
        ensures
            r == route(self.config(), self.udpdns(), *layouts, data@),
            data@.len() < 4 ==> r == Route::Drop,
            data@.len() >= 4 ==> {
                let source = record::number_at(data@, 0, 4, layouts.order);
                &&& r == Route::Decode(Probe::ProcTrace) <==> source == 1
                    && data@.len() >= layouts.proctrace_size
                &&& r == Route::Decode(Probe::SslSniff) <==> source == 2 && self.config().sslsniff
                    && data@.len() >= layouts.sslsniff_size
                &&& r == Route::Decode(Probe::ProcMon) <==> source == 3 && self.config().procmon
                    && data@.len() >= layouts.procmon_size
                &&& r == Route::Decode(Probe::FileWatch) <==> source == 4
                    && self.config().filewatch && data@.len() >= layouts.filewatch_size
                &&& r == Route::Decode(Probe::FileWrite) <==> source == 5
                    && self.config().filewrite && data@.len() >= layouts.filewrite_size
                &&& r == Route::Decode(Probe::UdpDns) <==> source == 6 && self.udpdns()
                    && data@.len() >= layouts.udpdns.size
                &&& r == Route::Decode(Probe::ProcFs) <==> source == 7 && self.config().procfs
                    && data@.len() >= layouts.procfs.size
                &&& r == Route::Decode(Probe::ProcNet) <==> source == 8 && self.config().procnet
                    && data@.len() >= layouts.procnet.size
                &&& r == Route::Decode(Probe::ProcSig) <==> source == 9 && self.config().procsig
                    && data@.len() >= layouts.procsig.size
                &&& r is Unknown <==> source == 0 || source > 9
                &&& r is Unknown ==> r == Route::Unknown(source as u32)
            },
    {
        if data.len() < 4 {
            return Route::Drop;
        }
        let source: u32 = read_u32(data, 0, layouts.order);
        match source_probe(source) {
            None => Route::Unknown(source),
            Some(probe) => {
                if self.is_running(probe) && data.len() >= layouts.record_size(probe) {
                    Route::Decode(probe)
                } else {
                    Route::Drop
                }
            },
        }
    }

    /// Takes in one record of the ring buffer. `clock` turns the kernel's time
    /// into Unix time.
    pub fn on_record<F: Fn(u64) -> u64>(
        &mut self,
        data: &[u8],
        layouts: &RecordLayouts,
        clock: &F,
    ) -> (r: Handled)
        requires
            old(self).wf(),
            layouts.wf(),
            forall|t: u64| #[trigger] call_requires(*clock, (t,)),
        ensures
            final(self).wf(),
            final(self).target_pids() == old(self).target_pids(),
            final(self).target_uid() == old(self).target_uid(),
            final(self).config() == old(self).config(),
            final(self).udpdns() == old(self).udpdns(),
            final(self).cgroup_filter() == old(self).cgroup_filter(),
            final(self).errors_only() == old(self).errors_only(),
            record_handled(
                route(old(self).config(), old(self).udpdns(), *layouts, data@),
                *layouts,
                data@,
                *clock,
                old(self).held(),
                final(self).held(),
                r,
            ),
            r is Unknown || r is DecodeAs ==> final(self).held() == old(self).held(),
            r matches Handled::Send(ProbeEvent::ProcFs(e)) ==> {
                &&& record::number_at(data@, 0, 4, layouts.order) == 7
                &&& old(self).config().procfs
                &&& !(e.op == 8 && e.ret < 0)
                &&& e.pid == record::number_at(
                    data@,
                    layouts.procfs.pid as int,
                    4,
                    layouts.procfs.order,
                )
                &&& final(self).held() == old(self).held()
            },
            r matches Handled::Send(ProbeEvent::ProcNet(e)) ==> {
                &&& record::number_at(data@, 0, 4, layouts.order) == 8
                &&& old(self).config().procnet
                &&& e.pid == record::number_at(
                    data@,
                    layouts.procnet.pid as int,
                    4,
                    layouts.procnet.order,
                )
            },
            r matches Handled::Send(ProbeEvent::ProcSig(e)) ==> {
                &&& record::number_at(data@, 0, 4, layouts.order) == 9
                &&& old(self).config().procsig
                &&& e.pid == record::number_at(
                    data@,
                    layouts.procsig.pid as int,
                    4,
                    layouts.procsig.order,
                )
            },
            r matches Handled::Send(ProbeEvent::UdpDns(e)) ==> {
                &&& record::number_at(data@, 0, 4, layouts.order) == 6
                &&& old(self).udpdns()
                &&& e.pid == record::number_at(
                    data@,
                    layouts.udpdns.pid as int,
                    4,
                    layouts.udpdns.order,
                )
            },
            r matches Handled::DecodeAs(probe) ==> {
                let source = record::number_at(data@, 0, 4, layouts.order);
                &&& probe is ProcTrace <==> source == 1
                &&& probe is SslSniff <==> source == 2
                &&& probe is ProcMon <==> source == 3
                &&& probe is FileWatch <==> source == 4
                &&& probe is FileWrite <==> source == 5
                &&& 1 <= source <= 5
            },
    {
        let probe = match self.route_record(data, layouts) {
            Route::Drop => {
                return Handled::Nothing;
            },
            Route::Unknown(source) => {
                return Handled::Unknown(source);
            },
            Route::Decode(probe) => probe,
        };
        match probe {
            Probe::UdpDns => match UdpDnsEvent::from_bytes(data, &layouts.udpdns, clock) {
                Some(e) => Handled::Send(ProbeEvent::UdpDns(e)),
                None => Handled::Nothing,
            },
            Probe::ProcFs => match ProcFsEvent::from_bytes(data, &layouts.procfs, clock) {
                Some(e) => {
                    let mut held = None;
                    std::mem::swap(&mut held, &mut self.open_err_agg);
                    let mut absorbed: bool = false;
                    if let Some(mut agg) = held {
                        absorbed = agg.try_record(&e);
                        self.open_err_agg = Some(agg);
                    }
                    if absorbed {
                        Handled::Nothing
                    } else {
                        Handled::Send(ProbeEvent::ProcFs(e))
                    }
                },
                None => Handled::Nothing,
            },
            Probe::ProcNet => match ProcNetEvent::from_bytes(data, &layouts.procnet, clock) {
                Some(e) => Handled::Send(ProbeEvent::ProcNet(e)),
                None => Handled::Nothing,
            },
            Probe::ProcSig => match ProcSigEvent::from_bytes(data, &layouts.procsig, clock) {
                Some(e) => Handled::Send(ProbeEvent::ProcSig(e)),
                None => Handled::Nothing,
            },
            other => Handled::DecodeAs(other),
        }
    }

    /// The aggregation maps to drain, given which of their handles could be
    /// had; `None` where there is nothing to drain.
    pub fn flush_plan(
        &self,
        flush_interval_ms: u64,
        connect_handle: bool,
        fork_handle: bool,
        open_handle: bool,
    ) -> (r: Option<FlushPlan>)
        requires
            self.wf(),
        ensures
            ({
                let plan = flush_plan_of(
                    self.config(),
                    flush_interval_ms,
                    connect_handle,
                    fork_handle,
                    open_handle,
                );
                r == (if plan.connect || plan.fork || plan.open || plan.open_errors {
                    Some(plan)
                } else {
                    None
                })
            }),
            r is None <==> !self.config().procfs && !(self.config().procnet && connect_handle)
                && !(self.config().procsig && fork_handle),
            r matches Some(plan) ==> {
                &&& plan.interval_ms >= 1
                &&& flush_interval_ms >= 1 ==> plan.interval_ms == flush_interval_ms
                &&& flush_interval_ms == 0 ==> plan.interval_ms == 1
                &&& plan.connect <==> self.config().procnet && connect_handle
                &&& plan.fork <==> self.config().procsig && fork_handle
                &&& plan.open <==> self.config().procfs && open_handle
                &&& plan.open_errors <==> self.config().procfs
            },
    {
        let plan = FlushPlan {
            interval_ms: if flush_interval_ms == 0 {
                1
            } else {
                flush_interval_ms
            },
            connect: self.config.procnet && connect_handle,
            fork: self.config.procsig && fork_handle,
            open: self.config.procfs && open_handle,
            open_errors: self.open_err_agg.is_some(),
        };
        if plan.connect || plan.fork || plan.open || plan.open_errors {
            Some(plan)
        } else {
            None
        }
    }

    /// Hands out the failed opens that were held back, one event per group.
    pub fn flush_open_errors(&mut self) -> (r: Vec<ProcFsEvent>)
        requires
            old(self).wf(),
        ensures
            final(self).wf(),
            final(self).target_pids() == old(self).target_pids(),
            final(self).target_uid() == old(self).target_uid(),
            final(self).config() == old(self).config(),
            final(self).udpdns() == old(self).udpdns(),
            final(self).cgroup_filter() == old(self).cgroup_filter(),
            final(self).errors_only() == old(self).errors_only(),
            final(self).held() == Map::<open_err::OpenErrKey, open_err::OpenErrTotal>::empty(),
            r@.len() == old(self).held().len(),
            forall|i: int|
                0 <= i < r@.len() ==> {
                    let k = open_err::reported_key(#[trigger] r@[i]);
                    old(self).held().contains_key(k) && open_err::reports(
                        r@[i],
                        k,
                        old(self).held()[k],
                    )
                },
            forall|k: open_err::OpenErrKey| #[trigger]
                old(self).held().contains_key(k) ==> exists|i: int|
                    0 <= i < r@.len() && open_err::reported_key(#[trigger] r@[i]) == k,
    {
        let mut held = None;
        std::mem::swap(&mut held, &mut self.open_err_agg);
        let mut events: Vec<ProcFsEvent> = Vec::new();
        if let Some(mut agg) = held {
            events = agg.flush();
            self.open_err_agg = Some(agg);
        }
        events
    }
}

/// The aggregation maps to drain: those of the probes that run, where their
/// handle could be had. The interval is at least a millisecond.
pub open spec fn flush_plan_of(
    config: ProbeConfig,
    flush_interval_ms: u64,
    connect_handle: bool,
    fork_handle: bool,
    open_handle: bool,
) -> FlushPlan {
    FlushPlan {
        interval_ms: if flush_interval_ms == 0 {
            1
        } else {
            flush_interval_ms
        },
        connect: config.procnet && connect_handle,
        fork: config.procsig && fork_handle,
        open: config.procfs && open_handle,
        open_errors: config.procfs,
    }
}

/// What the polling thread does next: it polls until it is told to stop, and
/// stops where a poll was interrupted or failed.
pub fn poll_step(stop: bool, last: Option<PollResult>) -> (r: PollStep)
    ensures
        r == (match last {
            Some(PollResult::Interrupted) => PollStep::Stop,
            Some(PollResult::Failed) => PollStep::StopFailed,
            _ => if stop {
                PollStep::Stop
            } else {
                PollStep::Poll
            },
        }),
{
    match last {
        Some(PollResult::Interrupted) => PollStep::Stop,
        Some(PollResult::Failed) => PollStep::StopFailed,
        _ => {
            if stop {
                PollStep::Stop
            } else {
                PollStep::Poll
            }
        },
    }
}

/// What is said where a probe could not be created.
pub open spec fn create_failure_text(probe: Probe) -> Seq<char> {
    match probe {
        Probe::ProcTrace => "failed to create proctrace"@,
        Probe::SslSniff => "failed to create sslsniff"@,
        Probe::ProcMon => "failed to create procmon"@,
        Probe::FileWatch => "failed to create filewatch"@,
        Probe::FileWrite => "failed to create filewrite"@,
        Probe::UdpDns => "failed to create udpdns"@,
        Probe::ProcFs => "failed to create procfs probe"@,
        Probe::ProcNet => "failed to create procnet probe"@,
        Probe::ProcSig => "failed to create procsig probe"@,
    }
}

/// What is said where a probe could not be created.
pub fn create_failure(probe: Probe) -> (r: &'static str)
    ensures
        r@ == create_failure_text(probe),
        probe is ProcTrace ==> r@ == "failed to create proctrace"@,
        probe is SslSniff ==> r@ == "failed to create sslsniff"@,
        probe is ProcMon ==> r@ == "failed to create procmon"@,
        probe is FileWatch ==> r@ == "failed to create filewatch"@,
        probe is FileWrite ==> r@ == "failed to create filewrite"@,
        probe is UdpDns ==> r@ == "failed to create udpdns"@,
        probe is ProcFs ==> r@ == "failed to create procfs probe"@,
        probe is ProcNet ==> r@ == "failed to create procnet probe"@,
        probe is ProcSig ==> r@ == "failed to create procsig probe"@,
{
    match probe {
        Probe::ProcTrace => "failed to create proctrace",
        Probe::SslSniff => "failed to create sslsniff",
        Probe::ProcMon => "failed to create procmon",
        Probe::FileWatch => "failed to create filewatch",
        Probe::FileWrite => "failed to create filewrite",
        Probe::UdpDns => "failed to create udpdns",
        Probe::ProcFs => "failed to create procfs probe",
        Probe::ProcNet => "failed to create procnet probe",
        Probe::ProcSig => "failed to create procsig probe",
    }
}

/// What is said where a probe could not be attached.
pub open spec fn attach_failure_text(probe: Probe) -> Seq<char> {
    match probe {
        Probe::ProcTrace => "failed to attach proctrace"@,
        Probe::SslSniff => "failed to attach sslsniff to process"@,
        Probe::ProcMon => "failed to attach procmon"@,
        Probe::FileWatch => "failed to attach filewatch"@,
        Probe::FileWrite => "failed to attach filewrite"@,
        Probe::UdpDns => "failed to attach udpdns"@,
        Probe::ProcFs => "failed to attach procfs"@,
        Probe::ProcNet => "failed to attach procnet"@,
        Probe::ProcSig => "failed to attach procsig"@,
    }
}

/// What is said where a probe could not be attached.
pub fn attach_failure(probe: Probe) -> (r: &'static str)
    ensures
        r@ == attach_failure_text(probe),
        probe is ProcTrace ==> r@ == "failed to attach proctrace"@,
        probe is SslSniff ==> r@ == "failed to attach sslsniff to process"@,
        probe is ProcMon ==> r@ == "failed to attach procmon"@,
        probe is FileWatch ==> r@ == "failed to attach filewatch"@,
        probe is FileWrite ==> r@ == "failed to attach filewrite"@,
        probe is UdpDns ==> r@ == "failed to attach udpdns"@,
        probe is ProcFs ==> r@ == "failed to attach procfs"@,
        probe is ProcNet ==> r@ == "failed to attach procnet"@,
        probe is ProcSig ==> r@ == "failed to attach procsig"@,
{
    match probe {
        Probe::ProcTrace => "failed to attach proctrace",
        Probe::SslSniff => "failed to attach sslsniff to process",
        Probe::ProcMon => "failed to attach procmon",
        Probe::FileWatch => "failed to attach filewatch",
        Probe::FileWrite => "failed to attach filewrite",
        Probe::UdpDns => "failed to attach udpdns",
        Probe::ProcFs => "failed to attach procfs",
        Probe::ProcNet => "failed to attach procnet",
        Probe::ProcSig => "failed to attach procsig",
    }
}

/// What is said of a probe that is switched off. The process tracer never is.
pub open spec fn disabled_text(probe: Probe) -> Seq<char> {
    match probe {
        Probe::ProcTrace => ""@,
        Probe::SslSniff => "SslSniff probe disabled by config"@,
        Probe::ProcMon => "ProcMon probe disabled by config"@,
        Probe::FileWatch => "FileWatch probe disabled by config"@,
        Probe::FileWrite => "FileWrite probe disabled by config"@,
        Probe::UdpDns => "UDP DNS probe disabled (no domain_rules configured)"@,
        Probe::ProcFs => "ProcFs probe disabled by config"@,
        Probe::ProcNet => "ProcNet probe disabled by config"@,
        Probe::ProcSig => "ProcSig probe disabled by config"@,
    }
}

/// What is said of a probe that is switched off. The process tracer never is.
pub fn disabled_note(probe: Probe) -> (r: &'static str)
    requires
        probe != Probe::ProcTrace,
    ensures
        r@ == disabled_text(probe),
        probe is ProcTrace ==> r@ == ""@,
        probe is SslSniff ==> r@ == "SslSniff probe disabled by config"@,
        probe is ProcMon ==> r@ == "ProcMon probe disabled by config"@,
        probe is FileWatch ==> r@ == "FileWatch probe disabled by config"@,
        probe is FileWrite ==> r@ == "FileWrite probe disabled by config"@,
        probe is UdpDns ==> r@ == "UDP DNS probe disabled (no domain_rules configured)"@,
        probe is ProcFs ==> r@ == "ProcFs probe disabled by config"@,
        probe is ProcNet ==> r@ == "ProcNet probe disabled by config"@,
        probe is ProcSig ==> r@ == "ProcSig probe disabled by config"@,
{
    match probe {
        Probe::ProcTrace => "",
        Probe::SslSniff => "SslSniff probe disabled by config",
        Probe::ProcMon => "ProcMon probe disabled by config",
        Probe::FileWatch => "FileWatch probe disabled by config",
        Probe::FileWrite => "FileWrite probe disabled by config",
        Probe::UdpDns => "UDP DNS probe disabled (no domain_rules configured)",
        Probe::ProcFs => "ProcFs probe disabled by config",
        Probe::ProcNet => "ProcNet probe disabled by config",
        Probe::ProcSig => "ProcSig probe disabled by config",
    }
}

/// Nothing is ever sent of a probe that is switched off.
pub proof fn disabled_probe_is_silent<F: Fn(u64) -> u64>(
    config: ProbeConfig,
    udpdns: bool,
    l: RecordLayouts,
    data: Seq<u8>,
    clock: F,
    before: Map<open_err::OpenErrKey, open_err::OpenErrTotal>,
    after: Map<open_err::OpenErrKey, open_err::OpenErrTotal>,
    r: Handled,
)
    requires
        data.len() >= 4,
        probe_of_source(record::number_at(data, 0, 4, l.order)) matches Some(p) && !runs(
            config,
            udpdns,
            p,
        ),
        record_handled(route(config, udpdns, l, data), l, data, clock, before, after, r),
    ensures
        r is Nothing,
        after == before,
{
}

/// A failed open is never sent by itself: it is counted in its group. Every
/// other filesystem event is sent and not counted.
pub proof fn filesystem_event_is_sent_or_counted<F: Fn(u64) -> u64>(
    l: RecordLayouts,
    data: Seq<u8>,
    clock: F,
    before: Map<open_err::OpenErrKey, open_err::OpenErrTotal>,
    after: Map<open_err::OpenErrKey, open_err::OpenErrTotal>,
    r: Handled,
)
    requires
        record_handled(Route::Decode(Probe::ProcFs), l, data, clock, before, after, r),
    ensures
        r matches Handled::Send(ProbeEvent::ProcFs(e)) ==> !open_err::is_open_failure(e) && after
            == before,
        !(r is Send) ==> exists|e: ProcFsEvent|
            {
                &&& #[trigger] ProcFsEvent::parsed(data, l.procfs, clock, Some(e))
                &&& open_err::is_open_failure(e)
                &&& after.contains_key(open_err::key_of(e))
                &&& after[open_err::key_of(e)].count >= 1
            },
{
    if !(r is Send) {
        let e = choose|e: ProcFsEvent|
            {
                &&& #[trigger] ProcFsEvent::parsed(data, l.procfs, clock, Some(e))
                &&& open_err::is_open_failure(e)
                &&& after == open_err::groups_after(before, e)
            };
        assert(after.contains_key(open_err::key_of(e)));
    }
}

/// A record is decoded as the probe that its first word stands for, where that
/// probe runs and the record is long enough, and as no other: 1 is the process
/// tracer, 2 SSL capture, 3 process monitoring, 4 file watching, 5 file writing,
/// 6 DNS capture, 7 the filesystem, 8 the network and 9 the signal probe.
pub proof fn first_word_tells_the_probe(
    config: ProbeConfig,
    udpdns: bool,
    l: RecordLayouts,
    data: Seq<u8>,
)
    requires
        data.len() >= 4,
        l.order == record::ByteOrder::Little,
    ensures
        ({
            let r = route(config, udpdns, l, data);
            let source = data[0] + 0x100 * data[1] + 0x1_0000 * data[2] + 0x100_0000 * data[3];
            &&& r == Route::Decode(Probe::ProcTrace) <==> source == 1
                && data.len() >= l.proctrace_size
            &&& r == Route::Decode(Probe::SslSniff) <==> source == 2 && config.sslsniff
                && data.len() >= l.sslsniff_size
            &&& r == Route::Decode(Probe::ProcMon) <==> source == 3 && config.procmon
                && data.len() >= l.procmon_size
            &&& r == Route::Decode(Probe::FileWatch) <==> source == 4 && config.filewatch
                && data.len() >= l.filewatch_size
            &&& r == Route::Decode(Probe::FileWrite) <==> source == 5 && config.filewrite
                && data.len() >= l.filewrite_size
            &&& r == Route::Decode(Probe::UdpDns) <==> source == 6 && udpdns
                && data.len() >= l.udpdns.size
            &&& r == Route::Decode(Probe::ProcFs) <==> source == 7 && config.procfs
                && data.len() >= l.procfs.size
            &&& r == Route::Decode(Probe::ProcNet) <==> source == 8 && config.procnet
                && data.len() >= l.procnet.size
            &&& r == Route::Decode(Probe::ProcSig) <==> source == 9 && config.procsig
                && data.len() >= l.procsig.size
            &&& r is Unknown <==> source == 0 || source > 9
            &&& r is Unknown ==> r == Route::Unknown(source as u32)
        }),
{
    record::words_are_spelled_out(data, 0);
}

/// What runs is what was asked for, the process tracer always.
pub proof fn what_is_asked_for_runs(config: ProbeConfig, udpdns: bool)
    ensures
        runs(config, udpdns, Probe::ProcTrace),
        runs(config, udpdns, Probe::SslSniff) <==> config.sslsniff,
        runs(config, udpdns, Probe::ProcMon) <==> config.procmon,
        runs(config, udpdns, Probe::FileWatch) <==> config.filewatch,
        runs(config, udpdns, Probe::FileWrite) <==> config.filewrite,
        runs(config, udpdns, Probe::UdpDns) <==> udpdns,
        runs(config, udpdns, Probe::ProcFs) <==> config.procfs,
        runs(config, udpdns, Probe::ProcNet) <==> config.procnet,
        runs(config, udpdns, Probe::ProcSig) <==> config.procsig,
{
}

/// The probe that a setup is of, the maps that it shares and what it lets pass:
/// process monitoring sees the whole system; without the cgroup filter no probe
/// goes by cgroups, and with it all do but SSL capture, DNS capture and process
/// monitoring; failures alone are reported by the filesystem, network and signal
/// probes only, and only where that is asked for.
pub proof fn setups_share_and_filter(probe: Probe, cgroup_filter: bool, errors_only: bool)
    ensures
        ({
            let s = setup_of(probe, cgroup_filter, errors_only);
            &&& s.probe == probe
            &&& probe is ProcMon ==> !s.shares_processes && !s.shares_cgroups && !s.cgroup_filter
            &&& probe is ProcTrace ==> !s.shares_processes && !s.shares_cgroups && s.cgroup_filter
                == cgroup_filter
            &&& probe is SslSniff || probe is UdpDns ==> s.shares_processes && !s.shares_cgroups
                && !s.cgroup_filter
            &&& probe is FileWatch || probe is FileWrite || probe is ProcFs || probe is ProcNet
                || probe is ProcSig ==> s.shares_processes && s.shares_cgroups == cgroup_filter
                && s.cgroup_filter == cgroup_filter
            &&& probe is ProcFs || probe is ProcNet || probe is ProcSig ==> s.errors_only
                == errors_only
            &&& probe is ProcTrace || probe is SslSniff || probe is ProcMon || probe is FileWatch
                || probe is FileWrite || probe is UdpDns ==> !s.errors_only
        }),
{
}

/// Every probe is created or passed over once, the process tracer, whose maps
/// the others share, before all of them.
pub proof fn tracer_is_created_first(probe: Probe)
    ensures
        creation_order().len() == 9,
        creation_order()[0] is ProcTrace,
        creation_order()[1] is SslSniff,
        creation_order()[2] is ProcMon,
        creation_order()[3] is FileWatch,
        creation_order()[4] is FileWrite,
        creation_order()[5] is UdpDns,
        creation_order()[6] is ProcFs,
        creation_order()[7] is ProcNet,
        creation_order()[8] is ProcSig,
        creation_order().contains(probe),
        creation_order().no_duplicates(),
{
    let o = creation_order();
    assert(o[0] is ProcTrace && o[1] is SslSniff && o[2] is ProcMon && o[3] is FileWatch);
    assert(o[4] is FileWrite && o[5] is UdpDns && o[6] is ProcFs && o[7] is ProcNet);
    assert(o[8] is ProcSig);
}

/// Every probe is attached once, but for SSL capture, and process monitoring is
/// attached before the process tracer.
pub proof fn monitor_is_attached_first(probe: Probe)
    ensures
        attach_order().contains(probe) <==> !(probe is SslSniff),
        attach_order().no_duplicates(),
        attach_order().len() == 8,
        attach_order()[0] is ProcMon,
        attach_order()[1] is ProcTrace,
        attach_order()[2] is FileWatch,
        attach_order()[3] is FileWrite,
        attach_order()[4] is UdpDns,
        attach_order()[5] is ProcFs,
        attach_order()[6] is ProcNet,
        attach_order()[7] is ProcSig,
{
    let o = attach_order();
    assert(o[0] is ProcMon && o[1] is ProcTrace && o[2] is FileWatch && o[3] is FileWrite);
    assert(o[4] is UdpDns && o[5] is ProcFs && o[6] is ProcNet && o[7] is ProcSig);
}

} // verus!
