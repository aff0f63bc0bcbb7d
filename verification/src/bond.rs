use vstd::prelude::*;
use vstd::string::*;

use crate::cli::BondArgs;
use crate::connection::{
    create_wired_connection, get_active_connection, get_connection, spec_get_active_connection,
    spec_get_connection, spec_wired_profile, ActivationState, BondSettings, ConnectionKind,
    ConnectionProfile, Ip4Method, Ip4Settings, MasterFilter, MasterFilterView, ProfileView,
};
use crate::error::NmError;
use crate::ip4::{parse_ipv4_cidr, spec_parse_cidr};
use crate::model::{
    event_tag, op_event_tag, BackendEvent, BackendModel, BackendOp, EventTag,
};
use crate::util::{
    dedup_names, normalize_optional, spec_dedup, spec_normalized, str_seq_view,
};

verus! {

/// The bonding policy of a bond connection. Only active-backup is
/// implemented; the other recognised modes are refused at profile-build time.
#[derive(Clone, Copy, Debug, PartialEq, Eq, Structural, Default)]
pub enum BondMode {
    RoundRobin,
    #[default]
    ActiveBackup,
    XOR,
    Broadcast,
    DynamicLinkAggregation,
    TransmitLoadBalancing,
    AdaptiveLoadBalancing,
}

/// The backend's textual name of a bond mode, for the modes this crate can
/// actually configure.
pub fn bond_mode_label(mode: BondMode) -> (r: Option<&'static str>)
    ensures
        r is Some <==> mode == BondMode::ActiveBackup,
        mode == BondMode::ActiveBackup ==> (r matches Some(l) && l@ == "active-backup"@),
{
    match mode {
        BondMode::ActiveBackup => Some("active-backup"),
        _ => None,
    }
}

/// The bond mode named by a configuration document tag, if recognised.
pub fn bond_mode_from_name(name: &str) -> (r: Option<BondMode>)
    ensures
        r == spec_bond_mode_from_name(name@),
{
    let n = String::from_str(name);
    if n == String::from_str("RoundRobin") {
        Some(BondMode::RoundRobin)
    } else if n == String::from_str("ActiveBackup") {
        Some(BondMode::ActiveBackup)
    } else if n == String::from_str("XOR") {
        Some(BondMode::XOR)
    } else if n == String::from_str("Broadcast") {
        Some(BondMode::Broadcast)
    } else if n == String::from_str("DynamicLinkAggregation") {
        Some(BondMode::DynamicLinkAggregation)
    } else if n == String::from_str("TransmitLoadBalancing") {
        Some(BondMode::TransmitLoadBalancing)
    } else if n == String::from_str("AdaptiveLoadBalancing") {
        Some(BondMode::AdaptiveLoadBalancing)
    } else {
        None
    }
}

/// Validated options of a bond invocation.
#[derive(Debug)]
pub struct BondOpts {
    /// Required for create and delete; a search filter for status.
    pub bond_ifname: Option<String>,
    /// Defaults to active-backup when unspecified.
    pub bond_mode: BondMode,
    /// Backing wired interfaces, duplicates coalesced, first occurrences in
    /// order.
    pub slave_ifnames: Vec<String>,
    /// Static IPv4 address in `a.b.c.d/len` form; unset means DHCP.
    pub ip4_addr: Option<String>,
}

/// Mathematical value of [`BondOpts`].
pub struct BondOptsView {
    pub bond_ifname: Option<Seq<char>>,
    pub bond_mode: BondMode,
    pub slave_ifnames: Seq<Seq<char>>,
    pub ip4_addr: Option<Seq<char>>,
}

impl View for BondOpts {
    type V = BondOptsView;

    open spec fn view(&self) -> BondOptsView {
        BondOptsView {
            bond_ifname: crate::connection::opt_str_view(self.bond_ifname),
            bond_mode: self.bond_mode,
            slave_ifnames: str_seq_view(self.slave_ifnames@),
            ip4_addr: crate::connection::opt_str_view(self.ip4_addr),
        }
    }
}

/// The bond mode a configuration document asks for: absent means the
/// default, a recognised name means that mode, anything else is an error.
pub open spec fn spec_config_bond_mode(m: Option<Seq<char>>) -> Result<BondMode, NmError> {
    match m {
        None => Ok(BondMode::ActiveBackup),
        Some(name) => match spec_bond_mode_from_name(name) {
            Some(mode) => Ok(mode),
            None => Err(NmError::UnknownBondMode),
        },
    }
}

impl BondOpts {
    /// Builds validated options from command-line fields. The bond mode
    /// defaults to active-backup when unspecified, empty optional strings
    /// count as unset, and duplicate slave names coalesce.
    pub fn from_args(args: BondArgs) -> (r: BondOpts)
        ensures
            r@.bond_ifname == spec_normalized(crate::connection::opt_str_view(args.ifname)),
            r@.bond_mode == (match args.bond_mode {
                Some(m) => m,
                None => BondMode::ActiveBackup,
            }),
            r@.slave_ifnames == spec_dedup(
                str_seq_view(args.slave_ifnames@),
                args.slave_ifnames@.len() as int,
            ),
            r@.ip4_addr == spec_normalized(crate::connection::opt_str_view(args.ip4_addr)),
    {
        let bond_mode = match args.bond_mode {
            Some(mode) => mode,
            None => BondMode::ActiveBackup,
        };
        BondOpts {
            bond_ifname: normalize_optional(args.ifname),
            bond_mode,
            slave_ifnames: dedup_names(args.slave_ifnames),
            ip4_addr: normalize_optional(args.ip4_addr),
        }
    }

    /// Builds validated options from the fields of a configuration
    /// document, where the bond mode arrives as a name and an unrecognised
    /// one is an error.
    pub fn from_config_fields(
        bond_interface: Option<String>,
        bond_mode: Option<String>,
        slave_interfaces: Vec<String>,
        ip4_addr: Option<String>,
    ) -> (r: Result<BondOpts, NmError>)
        ensures
            match spec_config_bond_mode(crate::connection::opt_str_view(bond_mode)) {
                Err(e) => r == Err::<BondOpts, NmError>(e),
                Ok(mode) => r matches Ok(o) && o@ == (BondOptsView {
                    bond_ifname: spec_normalized(
                        crate::connection::opt_str_view(bond_interface),
                    ),
                    bond_mode: mode,
                    slave_ifnames: spec_dedup(
                        str_seq_view(slave_interfaces@),
                        slave_interfaces@.len() as int,
                    ),
                    ip4_addr: spec_normalized(crate::connection::opt_str_view(ip4_addr)),
                }),
            },
    {
        let mode = match &bond_mode {
            None => BondMode::ActiveBackup,
            Some(name) => match bond_mode_from_name(name.as_str()) {
                Some(mode) => mode,
                None => {
                    return Err(NmError::UnknownBondMode);
                },
            },
        };
        Ok(
            BondOpts {
                bond_ifname: normalize_optional(bond_interface),
                bond_mode: mode,
                slave_ifnames: dedup_names(slave_interfaces),
                ip4_addr: normalize_optional(ip4_addr),
            },
        )
    }
}

/// The profile [`create_bond_connection`] builds on success.
pub open spec fn spec_bond_profile(ifname: Seq<char>, mode: BondMode, ip4: Ip4Settings) -> ProfileView {
    ProfileView {
        kind: Some(ConnectionKind::Bond),
        id: Some(ifname),
        interface_name: Some(ifname),
        autoconnect: true,
        master: crate::connection::MasterFilterView::Unset,
        slave_type: None,
        bond: Some(BondSettings { mode, miimon_ms: 100 }),
        wifi: None,
        ip4: Some(ip4),
    }
}

/// What [`create_bond_connection`] returns: the bond interface name is
/// required, the bond mode must be one this crate implements, and a given
/// IPv4 address must parse; without one the profile uses DHCP.
pub open spec fn spec_create_bond_connection(o: BondOptsView) -> Result<ProfileView, NmError> {
    match o.bond_ifname {
        None => Err(NmError::MissingBondInterface),
        Some(ifname) => {
            if o.bond_mode != BondMode::ActiveBackup {
                Err(NmError::UnsupportedBondMode)
            } else {
                match o.ip4_addr {
                    Some(addr) => match spec_parse_cidr(addr) {
                        None => Err(NmError::InvalidIp4Address),
                        Some(c) => Ok(
                            spec_bond_profile(
                                ifname,
                                o.bond_mode,
                                Ip4Settings { method: Ip4Method::Manual, address: Some(c) },
                            ),
                        ),
                    },
                    None => Ok(
                        spec_bond_profile(
                            ifname,
                            o.bond_mode,
                            Ip4Settings { method: Ip4Method::Auto, address: None },
                        ),
                    ),
                }
            }
        },
    }
}

// Builds the declarative bond connection profile for the given options,
// ready both for submission to the backend and as a search template.
pub fn create_bond_connection(opts: &BondOpts) -> (r: Result<ConnectionProfile, NmError>)
    ensures
        match r {
            Ok(p) => spec_create_bond_connection(opts@) == Ok::<ProfileView, NmError>(p@)
                && p@.ip4.unwrap().wf(),
            Err(e) => spec_create_bond_connection(opts@) == Err::<ProfileView, NmError>(e),
        },
{
    let ifname = match &opts.bond_ifname {
        Some(ifname) => ifname,
        None => {
            return Err(NmError::MissingBondInterface);
        },
    };
    if bond_mode_label(opts.bond_mode).is_none() {
        return Err(NmError::UnsupportedBondMode);
    }
    let ip4 = match &opts.ip4_addr {
        Some(addr) => match parse_ipv4_cidr(addr.as_str()) {
            Some(c) => Ip4Settings { method: Ip4Method::Manual, address: Some(c) },
            None => {
                return Err(NmError::InvalidIp4Address);
            },
        },
        None => Ip4Settings { method: Ip4Method::Auto, address: None },
    };
    Ok(
        ConnectionProfile {
            kind: Some(ConnectionKind::Bond),
            id: Some(ifname.clone()),
            interface_name: Some(ifname.clone()),
            autoconnect: true,
            master: MasterFilter::Unset,
            slave_type: None,
            bond: Some(BondSettings { mode: opts.bond_mode, miimon_ms: 100 }),
            wifi: None,
            ip4: Some(ip4),
        },
    )
}

/// Where a bond creation stands, and which answer it waits for.
#[derive(Clone, Copy, Debug, PartialEq, Eq, Structural)]
pub enum CreateBondPhase {
    /// Checking that no matching bond connection exists yet.
    AwaitConnections,
    /// Looking for an active standalone wired connection on slave `idx`.
    AwaitStandaloneScan { idx: usize },
    /// Waiting for that standalone connection to go down.
    AwaitStandaloneDeactivated { idx: usize },
    /// Looking for an active wired connection enslaved elsewhere on slave
    /// `idx`; finding one aborts the creation.
    AwaitEnslavedScan { idx: usize },
    /// Checking that the device backing slave `idx` exists.
    AwaitDevice { idx: usize },
    /// Waiting for the bond connection to be stored.
    AwaitBondAdded,
    /// Waiting for the wired connection of slave `idx` to be stored.
    AwaitSlaveAdded { idx: usize },
    /// Waiting for the wired connection of slave `idx` to come up.
    AwaitSlaveActivated { idx: usize },
    /// Resolving the bond's own active connection.
    AwaitResolveActive,
    /// Watching state-change notifications until a terminal state.
    AwaitStateChange,
    /// The creation has finished, one way or the other.
    Done,
}

/// The event shape each phase of a bond creation consumes.
pub open spec fn create_bond_wants(phase: CreateBondPhase) -> EventTag {
    match phase {
        CreateBondPhase::AwaitConnections => EventTag::Connections,
        CreateBondPhase::AwaitStandaloneScan { .. } => EventTag::ActiveConnections,
        CreateBondPhase::AwaitStandaloneDeactivated { .. } => EventTag::Deactivated,
        CreateBondPhase::AwaitEnslavedScan { .. } => EventTag::ActiveConnections,
        CreateBondPhase::AwaitDevice { .. } => EventTag::Device,
        CreateBondPhase::AwaitBondAdded => EventTag::Added,
        CreateBondPhase::AwaitSlaveAdded { .. } => EventTag::Added,
        CreateBondPhase::AwaitSlaveActivated { .. } => EventTag::Activated,
        CreateBondPhase::AwaitResolveActive => EventTag::ActiveConnections,
        CreateBondPhase::AwaitStateChange => EventTag::StateChanged,
        CreateBondPhase::Done => EventTag::Connections,
    }
}

/// How far a bond creation still has to go: a measure that every transition
/// shrinks, except waiting out one more still-activating notification.
pub open spec fn create_bond_rank(m: CreateBond) -> int {
    let n = m.slaves@.len() as int;
    match m.phase {
        CreateBondPhase::Done => 0,
        CreateBondPhase::AwaitStateChange => 1,
        CreateBondPhase::AwaitResolveActive => 2,
        CreateBondPhase::AwaitSlaveActivated { idx } => 3 + 2 * (n - 1 - idx),
        CreateBondPhase::AwaitSlaveAdded { idx } => 4 + 2 * (n - 1 - idx),
        CreateBondPhase::AwaitBondAdded => 2 * n + 3,
        CreateBondPhase::AwaitDevice { idx } => 2 * n + 4 + (n - 1 - idx),
        CreateBondPhase::AwaitEnslavedScan { idx } => 3 * n + 4 + 3 * (n - 1 - idx),
        CreateBondPhase::AwaitStandaloneDeactivated { idx } => 3 * n + 5 + 3 * (n - 1 - idx),
        CreateBondPhase::AwaitStandaloneScan { idx } => 3 * n + 6 + 3 * (n - 1 - idx),
        CreateBondPhase::AwaitConnections => 6 * n + 4,
    }
}

/// The state machine of one bond creation. The caller repeatedly carries the
/// emitted [`BackendOp`] to the backend and feeds the answer back through
/// [`CreateBond::step`], until the op is [`BackendOp::Finish`].
#[derive(Debug)]
pub struct CreateBond {
    /// The bond profile, both search template and submission.
    pub profile: ConnectionProfile,
    pub bond_ifname: String,
    /// The slave interfaces, at least one, none empty.
    pub slaves: Vec<String>,
    pub phase: CreateBondPhase,
}

/// What validating bond-creation options yields before any backend call: the
/// interface name is required, at least one slave with no empty name, and
/// the profile must build.
pub open spec fn spec_create_bond_new(o: BondOptsView) -> Result<ProfileView, NmError> {
    if o.bond_ifname is None {
        Err(NmError::MissingBondInterface)
    } else if o.slave_ifnames.len() == 0 {
        Err(NmError::NoSlaveInterfaces)
    } else if exists|i: int| 0 <= i < o.slave_ifnames.len() && o.slave_ifnames[i].len() == 0 {
        Err(NmError::EmptySlaveName)
    } else {
        spec_create_bond_connection(o)
    }
}

impl CreateBond {
    /// The machine's structural invariant.
    pub open spec fn wf(&self) -> bool {
        &&& self.slaves@.len() >= 1
        &&& self.profile@.kind == Some(ConnectionKind::Bond)
        &&& self.profile@.id is Some
        &&& self.profile@.interface_name == Some(self.bond_ifname@)
        &&& match self.phase {
            CreateBondPhase::AwaitStandaloneScan { idx } => idx < self.slaves@.len(),
            CreateBondPhase::AwaitStandaloneDeactivated { idx } => idx < self.slaves@.len(),
            CreateBondPhase::AwaitEnslavedScan { idx } => idx < self.slaves@.len(),
            CreateBondPhase::AwaitDevice { idx } => idx < self.slaves@.len(),
            CreateBondPhase::AwaitSlaveAdded { idx } => idx < self.slaves@.len(),
            CreateBondPhase::AwaitSlaveActivated { idx } => idx < self.slaves@.len(),
            _ => true,
        }
    }

    /// Validates the options and builds the machine together with its first
    /// request, without any backend interaction.
    pub fn new(opts: &BondOpts) -> (r: Result<(CreateBond, BackendOp), NmError>)
        ensures
            match spec_create_bond_new(opts@) {
                Err(e) => r == Err::<(CreateBond, BackendOp), NmError>(e),
                Ok(p) => r matches Ok(pair) && pair.0.wf() && pair.0.profile@ == p
                    && pair.0.bond_ifname@ == opts@.bond_ifname.unwrap() && str_seq_view(
                    pair.0.slaves@,
                ) == opts@.slave_ifnames && pair.0.phase == CreateBondPhase::AwaitConnections
                    && pair.1 == BackendOp::ListConnections,
            },
    {
        let bond_ifname = match &opts.bond_ifname {
            Some(ifname) => ifname.clone(),
            None => {
                return Err(NmError::MissingBondInterface);
            },
        };
        if opts.slave_ifnames.len() == 0 {
            return Err(NmError::NoSlaveInterfaces);
        }
        let mut i: usize = 0;
        while i < opts.slave_ifnames.len()
            invariant
                i <= opts.slave_ifnames@.len(),
                opts@.bond_ifname is Some,
                opts@.slave_ifnames.len() > 0,
                forall|j: int| 0 <= j < i ==> opts.slave_ifnames@[j]@.len() != 0,
            decreases opts.slave_ifnames@.len() - i,
        {
            if opts.slave_ifnames[i].as_str().unicode_len() == 0 {
                proof {
                    assert(opts@.slave_ifnames[i as int] == opts.slave_ifnames@[i as int]@);
                    assert(exists|j: int|
                        0 <= j < opts@.slave_ifnames.len() && opts@.slave_ifnames[j].len() == 0);
                    assert(spec_create_bond_new(opts@) == Err::<ProfileView, NmError>(
                        NmError::EmptySlaveName,
                    ));
                }
                return Err(NmError::EmptySlaveName);
            }
            i += 1;
        }
        proof {
            assert forall|j: int|
                0 <= j < opts@.slave_ifnames.len() implies opts@.slave_ifnames[j].len() != 0 by {
                assert(opts@.slave_ifnames[j] == opts.slave_ifnames@[j]@);
            }
        }
        let profile = match create_bond_connection(opts) {
            Ok(p) => p,
            Err(e) => {
                return Err(e);
            },
        };
        let slaves = crate::connection::clone_string_list(&opts.slave_ifnames);
        proof {
            assert(str_seq_view(slaves@) =~= opts@.slave_ifnames);
        }
        Ok(
            (
                CreateBond {
                    profile,
                    bond_ifname,
                    slaves,
                    phase: CreateBondPhase::AwaitConnections,
                },
                BackendOp::ListConnections,
            ),
        )
    }

    /// Consumes one backend answer and produces the next request.
    ///
    /// The transitions mirror the creation sequence: refuse to overwrite an
    /// existing matching bond; per slave, deactivate an active standalone
    /// wired connection but abort when the interface is actively enslaved
    /// elsewhere; require every backing device to exist; add the bond, then
    /// add and activate each slave; finally resolve the bond's active
    /// connection and watch it until a terminal state.
    pub fn step(self, event: BackendEvent) -> (r: (CreateBond, BackendOp))
        requires
            self.wf(),
            self.phase != CreateBondPhase::Done,
            event_tag(event) == create_bond_wants(self.phase),
        ensures
            r.0.wf(),
            r.0.profile@ == self.profile@,
            r.0.bond_ifname@ == self.bond_ifname@,
            str_seq_view(r.0.slaves@) == str_seq_view(self.slaves@),
            (r.1 matches BackendOp::Finish(_)) <==> r.0.phase == CreateBondPhase::Done,
            op_event_tag(r.1) matches Some(t) ==> t == create_bond_wants(r.0.phase),
            !(r.1 matches BackendOp::Finish(_)) ==> create_bond_rank(r.0) < create_bond_rank(self)
                || (self.phase == CreateBondPhase::AwaitStateChange && r.0.phase
                == CreateBondPhase::AwaitStateChange),
            ({
                let n = self.slaves@.len() as int;
                let slaves = str_seq_view(self.slaves@);
                match (self.phase, event) {
                    (CreateBondPhase::AwaitConnections, BackendEvent::Connections(conns)) => {
                        if spec_get_connection(ConnectionKind::Bond, self.profile@, conns@)
                            is Some {
                            r.1 == BackendOp::Finish(Err::<(), NmError>(NmError::AlreadyExists))
                        } else {
                            r.0.phase == (CreateBondPhase::AwaitStandaloneScan { idx: 0 }) && r.1
                                == BackendOp::ListActiveConnections
                        }
                    },
                    (
                        CreateBondPhase::AwaitStandaloneScan { idx },
                        BackendEvent::ActiveConnections(actives),
                    ) => {
                        let t = spec_wired_profile(slaves[idx as int], MasterFilterView::Unset);
                        match spec_get_active_connection(ConnectionKind::Wired, t, actives@) {
                            Some(j) => r.0.phase == (CreateBondPhase::AwaitStandaloneDeactivated {
                                idx,
                            }) && r.1 == BackendOp::DeactivateConnection(actives@[j].handle),
                            None => r.0.phase == (CreateBondPhase::AwaitEnslavedScan { idx })
                                && r.1 == BackendOp::ListActiveConnections,
                        }
                    },
                    (
                        CreateBondPhase::AwaitStandaloneDeactivated { idx },
                        BackendEvent::Deactivated(ok),
                    ) => {
                        if !ok {
                            r.1 == BackendOp::Finish(
                                Err::<(), NmError>(NmError::BackendOperationFailed),
                            )
                        } else {
                            spec_next_slave(r, idx as int, n, slaves)
                        }
                    },
                    (
                        CreateBondPhase::AwaitEnslavedScan { idx },
                        BackendEvent::ActiveConnections(actives),
                    ) => {
                        let t = spec_wired_profile(slaves[idx as int], MasterFilterView::Any);
                        if spec_get_active_connection(ConnectionKind::Wired, t, actives@)
                            is Some {
                            r.1 == BackendOp::Finish(
                                Err::<(), NmError>(NmError::InterfaceConflict),
                            )
                        } else {
                            spec_next_slave(r, idx as int, n, slaves)
                        }
                    },
                    (CreateBondPhase::AwaitDevice { idx }, BackendEvent::Device(found)) => {
                        if !found {
                            r.1 == BackendOp::Finish(Err::<(), NmError>(NmError::DeviceNotFound))
                        } else if idx as int + 1 < n {
                            r.0.phase == (CreateBondPhase::AwaitDevice { idx: (idx + 1) as usize })
                                && (r.1 matches BackendOp::GetDevice(name) && name@ == slaves[idx
                                as int + 1])
                        } else {
                            r.0.phase == CreateBondPhase::AwaitBondAdded && (
                            r.1 matches BackendOp::AddConnection(p) && p@ == self.profile@)
                        }
                    },
                    (CreateBondPhase::AwaitBondAdded, BackendEvent::Added(res)) => {
                        match res {
                            None => r.1 == BackendOp::Finish(
                                Err::<(), NmError>(NmError::BackendOperationFailed),
                            ),
                            Some(_) => r.0.phase == (CreateBondPhase::AwaitSlaveAdded { idx: 0 })
                                && (r.1 matches BackendOp::AddConnection(p) && p@
                                == spec_wired_profile(
                                slaves[0],
                                MasterFilterView::Named(self.bond_ifname@),
                            )),
                        }
                    },
                    (CreateBondPhase::AwaitSlaveAdded { idx }, BackendEvent::Added(res)) => {
                        match res {
                            None => r.1 == BackendOp::Finish(
                                Err::<(), NmError>(NmError::BackendOperationFailed),
                            ),
                            Some(sc) => r.0.phase == (CreateBondPhase::AwaitSlaveActivated { idx })
                                && (r.1 matches BackendOp::ActivateConnection {
                                connection,
                                device,
                            } && connection == sc@.handle && device@ == slaves[idx as int]),
                        }
                    },
                    (CreateBondPhase::AwaitSlaveActivated { idx }, BackendEvent::Activated(res)) => {
                        match res {
                            None => r.1 == BackendOp::Finish(
                                Err::<(), NmError>(NmError::BackendOperationFailed),
                            ),
                            Some(_) => {
                                if idx as int + 1 < n {
                                    r.0.phase == (CreateBondPhase::AwaitSlaveAdded {
                                        idx: (idx + 1) as usize,
                                    }) && (r.1 matches BackendOp::AddConnection(p) && p@
                                        == spec_wired_profile(
                                        slaves[idx as int + 1],
                                        MasterFilterView::Named(self.bond_ifname@),
                                    ))
                                } else {
                                    r.0.phase == CreateBondPhase::AwaitResolveActive && r.1
                                        == BackendOp::ListActiveConnections
                                }
                            },
                        }
                    },
                    (
                        CreateBondPhase::AwaitResolveActive,
                        BackendEvent::ActiveConnections(actives),
                    ) => {
                        match spec_get_active_connection(
                            ConnectionKind::Bond,
                            self.profile@,
                            actives@,
                        ) {
                            None => r.1 == BackendOp::Finish(
                                Err::<(), NmError>(NmError::NotActive),
                            ),
                            Some(j) => {
                                if actives@[j].state == ActivationState::Activated {
                                    r.1 == BackendOp::Finish(Ok::<(), NmError>(()))
                                } else {
                                    r.0.phase == CreateBondPhase::AwaitStateChange && r.1
                                        == BackendOp::Subscribe(actives@[j].handle)
                                }
                            },
                        }
                    },
                    (CreateBondPhase::AwaitStateChange, BackendEvent::StateChanged(st)) => {
                        match crate::connection::spec_activation_step(st) {
                            None => r.0.phase == CreateBondPhase::AwaitStateChange && r.1
                                == BackendOp::AwaitState,
                            Some(res) => r.1 == BackendOp::Finish(res),
                        }
                    },
                    _ => true,
                }
            }),
    {
        let n = self.slaves.len();
        match (self.phase, event) {
            (CreateBondPhase::AwaitConnections, BackendEvent::Connections(conns)) => {
                if get_connection(ConnectionKind::Bond, &self.profile, &conns).is_some() {
                    (
                        CreateBond { phase: CreateBondPhase::Done, ..self },
                        BackendOp::Finish(Err(NmError::AlreadyExists)),
                    )
                } else {
                    (
                        CreateBond { phase: CreateBondPhase::AwaitStandaloneScan { idx: 0 }, ..self },
                        BackendOp::ListActiveConnections,
                    )
                }
            },
            (
                CreateBondPhase::AwaitStandaloneScan { idx },
                BackendEvent::ActiveConnections(actives),
            ) => {
                let t = create_wired_connection(self.slaves[idx].as_str(), MasterFilter::Unset);
                match get_active_connection(ConnectionKind::Wired, &t, &actives) {
                    Some(j) => {
                        let handle = actives[j].handle;
                        (
                            CreateBond {
                                phase: CreateBondPhase::AwaitStandaloneDeactivated { idx },
                                ..self
                            },
                            BackendOp::DeactivateConnection(handle),
                        )
                    },
                    None => (
                        CreateBond { phase: CreateBondPhase::AwaitEnslavedScan { idx }, ..self },
                        BackendOp::ListActiveConnections,
                    ),
                }
            },
            (CreateBondPhase::AwaitStandaloneDeactivated { idx }, BackendEvent::Deactivated(ok)) => {
                if !ok {
                    (
                        CreateBond { phase: CreateBondPhase::Done, ..self },
                        BackendOp::Finish(Err(NmError::BackendOperationFailed)),
                    )
                } else {
                    self.next_slave(idx)
                }
            },
            (
                CreateBondPhase::AwaitEnslavedScan { idx },
                BackendEvent::ActiveConnections(actives),
            ) => {
                let t = create_wired_connection(self.slaves[idx].as_str(), MasterFilter::Any);
                if get_active_connection(ConnectionKind::Wired, &t, &actives).is_some() {
                    (
                        CreateBond { phase: CreateBondPhase::Done, ..self },
                        BackendOp::Finish(Err(NmError::InterfaceConflict)),
                    )
                } else {
                    self.next_slave(idx)
                }
            },
            (CreateBondPhase::AwaitDevice { idx }, BackendEvent::Device(found)) => {
                if !found {
                    (
                        CreateBond { phase: CreateBondPhase::Done, ..self },
                        BackendOp::Finish(Err(NmError::DeviceNotFound)),
                    )
                } else if idx + 1 < n {
                    let name = self.slaves[idx + 1].clone();
                    (
                        CreateBond { phase: CreateBondPhase::AwaitDevice { idx: idx + 1 }, ..self },
                        BackendOp::GetDevice(name),
                    )
                } else {
                    let p = self.profile.clone();
                    (
                        CreateBond { phase: CreateBondPhase::AwaitBondAdded, ..self },
                        BackendOp::AddConnection(p),
                    )
                }
            },
            (CreateBondPhase::AwaitBondAdded, BackendEvent::Added(res)) => {
                match res {
                    None => (
                        CreateBond { phase: CreateBondPhase::Done, ..self },
                        BackendOp::Finish(Err(NmError::BackendOperationFailed)),
                    ),
                    Some(_) => {
                        let p = create_wired_connection(
                            self.slaves[0].as_str(),
                            MasterFilter::Named(self.bond_ifname.clone()),
                        );
                        (
                            CreateBond { phase: CreateBondPhase::AwaitSlaveAdded { idx: 0 }, ..self },
                            BackendOp::AddConnection(p),
                        )
                    },
                }
            },
            (CreateBondPhase::AwaitSlaveAdded { idx }, BackendEvent::Added(res)) => {
                match res {
                    None => (
                        CreateBond { phase: CreateBondPhase::Done, ..self },
                        BackendOp::Finish(Err(NmError::BackendOperationFailed)),
                    ),
                    Some(sc) => {
                        let device = self.slaves[idx].clone();
                        (
                            CreateBond {
                                phase: CreateBondPhase::AwaitSlaveActivated { idx },
                                ..self
                            },
                            BackendOp::ActivateConnection { connection: sc.handle, device },
                        )
                    },
                }
            },
            (CreateBondPhase::AwaitSlaveActivated { idx }, BackendEvent::Activated(res)) => {
                match res {
                    None => (
                        CreateBond { phase: CreateBondPhase::Done, ..self },
                        BackendOp::Finish(Err(NmError::BackendOperationFailed)),
                    ),
                    Some(_) => {
                        if idx + 1 < n {
                            let p = create_wired_connection(
                                self.slaves[idx + 1].as_str(),
                                MasterFilter::Named(self.bond_ifname.clone()),
                            );
                            (
                                CreateBond {
                                    phase: CreateBondPhase::AwaitSlaveAdded { idx: idx + 1 },
                                    ..self
                                },
                                BackendOp::AddConnection(p),
                            )
                        } else {
                            (
                                CreateBond { phase: CreateBondPhase::AwaitResolveActive, ..self },
                                BackendOp::ListActiveConnections,
                            )
                        }
                    },
                }
            },
            (CreateBondPhase::AwaitResolveActive, BackendEvent::ActiveConnections(actives)) => {
                match get_active_connection(ConnectionKind::Bond, &self.profile, &actives) {
                    None => (
                        CreateBond { phase: CreateBondPhase::Done, ..self },
                        BackendOp::Finish(Err(NmError::NotActive)),
                    ),
                    Some(j) => {
                        if actives[j].state == ActivationState::Activated {
                            (
                                CreateBond { phase: CreateBondPhase::Done, ..self },
                                BackendOp::Finish(Ok(())),
                            )
                        } else {
                            let handle = actives[j].handle;
                            (
                                CreateBond { phase: CreateBondPhase::AwaitStateChange, ..self },
                                BackendOp::Subscribe(handle),
                            )
                        }
                    },
                }
            },
            (CreateBondPhase::AwaitStateChange, BackendEvent::StateChanged(st)) => {
                match crate::connection::activation_step(st) {
                    None => (
                        CreateBond { phase: CreateBondPhase::AwaitStateChange, ..self },
                        BackendOp::AwaitState,
                    ),
                    Some(res) => (
                        CreateBond { phase: CreateBondPhase::Done, ..self },
                        BackendOp::Finish(res),
                    ),
                }
            },
            _ => {
                proof {
                    assert(false);
                }
                (
                    CreateBond { phase: CreateBondPhase::Done, ..self },
                    BackendOp::Finish(Err(NmError::BackendOperationFailed)),
                )
            },
        }
    }

    /// Moves on to the next slave's standalone scan, or to the device checks
    /// once every slave has been cleared.
    fn next_slave(self, idx: usize) -> (r: (CreateBond, BackendOp))
        requires
            self.wf(),
            idx < self.slaves@.len(),
        ensures
            r.0.wf(),
            r.0.profile@ == self.profile@,
            r.0.bond_ifname@ == self.bond_ifname@,
            str_seq_view(r.0.slaves@) == str_seq_view(self.slaves@),
            spec_next_slave(r, idx as int, self.slaves@.len() as int, str_seq_view(self.slaves@)),
            !(r.1 matches BackendOp::Finish(_)),
            r.0.phase != CreateBondPhase::Done,
            r.0.slaves == self.slaves,
            op_event_tag(r.1) matches Some(t) ==> t == create_bond_wants(r.0.phase),
    {
        let n = self.slaves.len();
        if idx + 1 < n {
            (
                CreateBond { phase: CreateBondPhase::AwaitStandaloneScan { idx: idx + 1 }, ..self },
                BackendOp::ListActiveConnections,
            )
        } else {
            let name = self.slaves[0].clone();
            (
                CreateBond { phase: CreateBondPhase::AwaitDevice { idx: 0 }, ..self },
                BackendOp::GetDevice(name),
            )
        }
    }
}

/// After clearing slave `idx`, the machine scans the next slave, or starts
/// the device checks when `idx` was the last one.
pub open spec fn spec_next_slave(
    r: (CreateBond, BackendOp),
    idx: int,
    n: int,
    slaves: Seq<Seq<char>>,
) -> bool {
    if idx + 1 < n {
        r.0.phase == (CreateBondPhase::AwaitStandaloneScan { idx: (idx + 1) as usize }) && r.1
            == BackendOp::ListActiveConnections
    } else {
        r.0.phase == (CreateBondPhase::AwaitDevice { idx: 0 }) && (
        r.1 matches BackendOp::GetDevice(name) && name@ == slaves[0])
    }
}

/// The stored records a bond creation adds for the first `k` slaves, in
/// order: one wired slave profile each, under every second fresh handle from
/// `base` on.
pub open spec fn spec_added_slaves_stored(
    slaves: Seq<Seq<char>>,
    bond_if: Seq<char>,
    base: int,
    k: int,
) -> Seq<crate::connection::StoredConnectionView>
    decreases k,
{
    if k <= 0 {
        Seq::empty()
    } else {
        spec_added_slaves_stored(slaves, bond_if, base, k - 1).push(
            crate::connection::StoredConnectionView {
                handle: (base + 2 * (k - 1)) as u64,
                profile: spec_wired_profile(slaves[k - 1], MasterFilterView::Named(bond_if)),
            },
        )
    }
}

/// The activations a bond creation leaves for the first `k` slaves, one per
/// added record, in the backend's initial activation state.
pub open spec fn spec_added_slaves_active(
    slaves: Seq<Seq<char>>,
    bond_if: Seq<char>,
    base: int,
    k: int,
    state: ActivationState,
) -> Seq<crate::connection::ActiveConnectionView>
    decreases k,
{
    if k <= 0 {
        Seq::empty()
    } else {
        spec_added_slaves_active(slaves, bond_if, base, k - 1, state).push(
            crate::connection::ActiveConnectionView {
                handle: (base + 2 * (k - 1) + 1) as u64,
                connection: crate::connection::StoredConnectionView {
                    handle: (base + 2 * (k - 1)) as u64,
                    profile: spec_wired_profile(slaves[k - 1], MasterFilterView::Named(bond_if)),
                },
                state,
                ip4_addresses: Seq::empty(),
            },
        )
    }
}

/// Where each added slave record sits and what it holds.
pub proof fn lemma_added_slaves_stored_props(
    slaves: Seq<Seq<char>>,
    bond_if: Seq<char>,
    base: int,
    k: int,
)
    requires
        0 <= k,
    ensures
        spec_added_slaves_stored(slaves, bond_if, base, k).len() == k,
        forall|t: int|
            0 <= t < k ==> spec_added_slaves_stored(slaves, bond_if, base, k)[t] == (
            crate::connection::StoredConnectionView {
                handle: (base + 2 * t) as u64,
                profile: spec_wired_profile(slaves[t], MasterFilterView::Named(bond_if)),
            }),
    decreases k,
{
    if k > 0 {
        lemma_added_slaves_stored_props(slaves, bond_if, base, k - 1);
    }
}

/// Where each added slave activation sits and what it holds.
pub proof fn lemma_added_slaves_active_props(
    slaves: Seq<Seq<char>>,
    bond_if: Seq<char>,
    base: int,
    k: int,
    state: ActivationState,
)
    requires
        0 <= k,
    ensures
        spec_added_slaves_active(slaves, bond_if, base, k, state).len() == k,
        forall|t: int|
            0 <= t < k ==> spec_added_slaves_active(slaves, bond_if, base, k, state)[t] == (
            crate::connection::ActiveConnectionView {
                handle: (base + 2 * t + 1) as u64,
                connection: crate::connection::StoredConnectionView {
                    handle: (base + 2 * t) as u64,
                    profile: spec_wired_profile(slaves[t], MasterFilterView::Named(bond_if)),
                },
                state,
                ip4_addresses: Seq::empty(),
            }),
    decreases k,
{
    if k > 0 {
        lemma_added_slaves_active_props(slaves, bond_if, base, k - 1, state);
    }
}

/// What a bond creation settles to when nothing stands in its way: with no
/// wired activity on any slave interface, every backing device present, no
/// matching bond stored or active, and fresh handles available, the stored
/// list gains the bond profile and one wired slave profile per slave in
/// order, each with exactly one activation, and the result follows the
/// bond activation's state and the first notification.
pub open spec fn spec_bond_creation_outcome(
    pre: &BackendModel,
    post: &BackendModel,
    p: ProfileView,
    slaves: Seq<Seq<char>>,
    bond_if: Seq<char>,
    r: Result<(), NmError>,
) -> bool {
    let bond_stored = crate::connection::StoredConnectionView {
        handle: pre.next_handle,
        profile: p,
    };
    let bond_active = crate::connection::ActiveConnectionView {
        handle: (pre.next_handle + 1) as u64,
        connection: bond_stored,
        state: pre.new_active_state,
        ip4_addresses: Seq::empty(),
    };
    (spec_get_connection(ConnectionKind::Bond, p, pre.connections@) is None
        && spec_get_active_connection(ConnectionKind::Bond, p, pre.active@) is None && (forall|
        i: int,
    |
        0 <= i < slaves.len() ==> spec_get_active_connection(
            ConnectionKind::Wired,
            spec_wired_profile(#[trigger] slaves[i], MasterFilterView::Unset),
            pre.active@,
        ) is None && spec_get_active_connection(
            ConnectionKind::Wired,
            spec_wired_profile(slaves[i], MasterFilterView::Any),
            pre.active@,
        ) is None) && (forall|i: int|
        0 <= i < slaves.len() ==> crate::util::str_seq_view(pre.devices@).contains(
            #[trigger] slaves[i],
        )) && crate::model::spec_handles_ok(pre) && pre.next_handle + 2 + 2 * slaves.len()
        <= u64::MAX) ==> {
        &&& crate::model::stored_list_view(post.connections@) == crate::model::stored_list_view(
            pre.connections@,
        ).push(bond_stored) + spec_added_slaves_stored(
            slaves,
            bond_if,
            pre.next_handle + 2,
            slaves.len() as int,
        )
        &&& crate::model::active_list_view(post.active@) == crate::model::active_list_view(
            pre.active@,
        ).push(bond_active) + spec_added_slaves_active(
            slaves,
            bond_if,
            pre.next_handle + 2,
            slaves.len() as int,
            pre.new_active_state,
        )
        &&& post.next_handle == pre.next_handle + 2 + 2 * slaves.len()
        &&& post.devices@ == pre.devices@
        &&& post.new_active_state == pre.new_active_state
        &&& post.notified_state == pre.notified_state
        &&& r == (if pre.new_active_state == ActivationState::Activated {
            Ok::<(), NmError>(())
        } else {
            crate::connection::spec_activation_step(pre.notified_state).unwrap()
        })
    }
}

// Runs a bond creation to completion against a backend. Validation failures
// surface before anything is asked of the backend; an already existing
// matching bond connection fails the creation with a conflict instead of
// overwriting it; an interface actively enslaved elsewhere aborts the
// creation before anything is added, as does a missing backing device; and
// on a clear path the bond and its slaves are added and activated and the
// result follows the bond activation's state. The backend's notifications
// must decide each activation: one that reports "activating" forever would
// stall the caller without end.
#[verifier::rlimit(100)]
pub fn create_bond(client: &mut BackendModel, opts: &BondOpts) -> (r: Result<(), NmError>)
    requires
        crate::connection::spec_activation_step(old(client).notified_state) is Some,
    ensures
        spec_create_bond_new(opts@) matches Err(e) ==> r == Err::<(), NmError>(e)
            && crate::model::model_unchanged(old(client), final(client)),
        (spec_create_bond_new(opts@) matches Ok(p) && spec_get_connection(
            ConnectionKind::Bond,
            p,
            old(client).connections@,
        ) is Some) ==> r == Err::<(), NmError>(NmError::AlreadyExists)
            && crate::model::model_unchanged(old(client), final(client)),
        (spec_create_bond_new(opts@) matches Ok(p) && spec_get_connection(
            ConnectionKind::Bond,
            p,
            old(client).connections@,
        ) is None && (forall|i: int|
            0 <= i < opts@.slave_ifnames.len() ==> spec_get_active_connection(
                ConnectionKind::Wired,
                spec_wired_profile(#[trigger] opts@.slave_ifnames[i], MasterFilterView::Unset),
                old(client).active@,
            ) is None) && (exists|i: int|
            0 <= i < opts@.slave_ifnames.len() && spec_get_active_connection(
                ConnectionKind::Wired,
                spec_wired_profile(#[trigger] opts@.slave_ifnames[i], MasterFilterView::Any),
                old(client).active@,
            ) is Some)) ==> r == Err::<(), NmError>(NmError::InterfaceConflict)
            && crate::model::model_unchanged(old(client), final(client)),
        (spec_create_bond_new(opts@) matches Ok(p) && spec_get_connection(
            ConnectionKind::Bond,
            p,
            old(client).connections@,
        ) is None && (forall|i: int|
            0 <= i < opts@.slave_ifnames.len() ==> spec_get_active_connection(
                ConnectionKind::Wired,
                spec_wired_profile(#[trigger] opts@.slave_ifnames[i], MasterFilterView::Unset),
                old(client).active@,
            ) is None && spec_get_active_connection(
                ConnectionKind::Wired,
                spec_wired_profile(opts@.slave_ifnames[i], MasterFilterView::Any),
                old(client).active@,
            ) is None) && (exists|i: int|
            0 <= i < opts@.slave_ifnames.len() && !crate::util::str_seq_view(
                old(client).devices@,
            ).contains(#[trigger] opts@.slave_ifnames[i]))) ==> r == Err::<(), NmError>(
            NmError::DeviceNotFound,
        ) && crate::model::model_unchanged(old(client), final(client)),
        spec_create_bond_new(opts@) matches Ok(p) ==> spec_bond_creation_outcome(
            old(client),
            final(client),
            p,
            opts@.slave_ifnames,
            opts@.bond_ifname.unwrap(),
            r,
        ),
{
    let (m, _) = match CreateBond::new(opts) {
        Ok(pair) => pair,
        Err(e) => {
            return Err(e);
        },
    };
    let CreateBond { profile, bond_ifname, slaves, phase: _ } = m;
    if get_connection(ConnectionKind::Bond, &profile, &client.connections).is_some() {
        return Err(NmError::AlreadyExists);
    }
    let n = slaves.len();
    let ghost ns = forall|i: int|
        0 <= i < str_seq_view(slaves@).len() ==> spec_get_active_connection(
            ConnectionKind::Wired,
            spec_wired_profile(#[trigger] str_seq_view(slaves@)[i], MasterFilterView::Unset),
            old(client).active@,
        ) is None;

    // clear each slave interface: deactivate a standalone wired occupant,
    // refuse an interface that is actively enslaved elsewhere
    let mut idx: usize = 0;
    while idx < n
        invariant
            idx <= n,
            n == slaves@.len(),
            spec_create_bond_new(opts@) == Ok::<ProfileView, NmError>(profile@),
            spec_get_connection(ConnectionKind::Bond, profile@, old(client).connections@) is None,
            opts@.slave_ifnames == str_seq_view(slaves@),
            opts@.bond_ifname.unwrap() == bond_ifname@,
            crate::connection::spec_activation_step(old(client).notified_state) is Some,
            client.notified_state == old(client).notified_state,
            ns == (forall|i: int|
                0 <= i < str_seq_view(slaves@).len() ==> spec_get_active_connection(
                    ConnectionKind::Wired,
                    spec_wired_profile(
                        #[trigger] str_seq_view(slaves@)[i],
                        MasterFilterView::Unset,
                    ),
                    old(client).active@,
                ) is None),
            ns ==> crate::model::model_unchanged(old(client), client),
            ns ==> (forall|i: int|
                0 <= i < idx ==> spec_get_active_connection(
                    ConnectionKind::Wired,
                    spec_wired_profile(#[trigger] str_seq_view(slaves@)[i], MasterFilterView::Any),
                    old(client).active@,
                ) is None),
        decreases n - idx,
    {
        let standalone = create_wired_connection(slaves[idx].as_str(), MasterFilter::Unset);
        match get_active_connection(ConnectionKind::Wired, &standalone, &client.active) {
            Some(j) => {
                let handle = client.active[j].handle;
                proof {
                    assert(str_seq_view(slaves@)[idx as int] == slaves@[idx as int]@);
                }
                let _ = client.answer(&BackendOp::DeactivateConnection(handle));
            },
            None => {},
        }
        let enslaved = create_wired_connection(slaves[idx].as_str(), MasterFilter::Any);
        if get_active_connection(ConnectionKind::Wired, &enslaved, &client.active).is_some() {
            proof {
                assert(str_seq_view(slaves@)[idx as int] == slaves@[idx as int]@);
            }
            return Err(NmError::InterfaceConflict);
        }
        proof {
            assert(str_seq_view(slaves@)[idx as int] == slaves@[idx as int]@);
        }
        idx += 1;
    }

    // every backing device must exist before anything is added
    let mut idx2: usize = 0;
    while idx2 < n
        invariant
            idx2 <= n,
            n == slaves@.len(),
            spec_create_bond_new(opts@) == Ok::<ProfileView, NmError>(profile@),
            spec_get_connection(ConnectionKind::Bond, profile@, old(client).connections@) is None,
            opts@.slave_ifnames == str_seq_view(slaves@),
            opts@.bond_ifname.unwrap() == bond_ifname@,
            crate::connection::spec_activation_step(old(client).notified_state) is Some,
            client.notified_state == old(client).notified_state,
            ns ==> (forall|i: int|
                0 <= i < str_seq_view(slaves@).len() ==> spec_get_active_connection(
                    ConnectionKind::Wired,
                    spec_wired_profile(#[trigger] str_seq_view(slaves@)[i], MasterFilterView::Any),
                    old(client).active@,
                ) is None),
            ns == (forall|i: int|
                0 <= i < str_seq_view(slaves@).len() ==> spec_get_active_connection(
                    ConnectionKind::Wired,
                    spec_wired_profile(
                        #[trigger] str_seq_view(slaves@)[i],
                        MasterFilterView::Unset,
                    ),
                    old(client).active@,
                ) is None),
            ns ==> crate::model::model_unchanged(old(client), client),
            ns ==> (forall|i: int|
                0 <= i < idx2 ==> crate::util::str_seq_view(old(client).devices@).contains(
                    #[trigger] str_seq_view(slaves@)[i],
                )),
        decreases n - idx2,
    {
        if !crate::util::contains_string(&client.devices, &slaves[idx2]) {
            proof {
                assert(str_seq_view(slaves@)[idx2 as int] == slaves@[idx2 as int]@);
            }
            return Err(NmError::DeviceNotFound);
        }
        proof {
            assert(str_seq_view(slaves@)[idx2 as int] == slaves@[idx2 as int]@);
        }
        idx2 += 1;
    }

    let ghost n0 = old(client).next_handle;
    let ghost sl = str_seq_view(slaves@);
    let ghost bv = bond_ifname@;
    let ghost s0 = crate::model::stored_list_view(old(client).connections@);
    let ghost a0 = crate::model::active_list_view(old(client).active@);
    let ghost bond_stored = crate::connection::StoredConnectionView {
        handle: n0,
        profile: profile@,
    };
    let ghost bond_active = crate::connection::ActiveConnectionView {
        handle: (n0 + 1) as u64,
        connection: bond_stored,
        state: old(client).new_active_state,
        ip4_addresses: Seq::empty(),
    };
    // the outcome premise: a clear path with fresh handles to spare
    let ghost pok = spec_get_active_connection(ConnectionKind::Bond, profile@, old(client).active@)
        is None && ns && (forall|i: int|
        0 <= i < sl.len() ==> spec_get_active_connection(
            ConnectionKind::Wired,
            spec_wired_profile(#[trigger] sl[i], MasterFilterView::Any),
            old(client).active@,
        ) is None) && (forall|i: int|
        0 <= i < sl.len() ==> crate::util::str_seq_view(old(client).devices@).contains(
            #[trigger] sl[i],
        )) && crate::model::spec_handles_ok(old(client)) && n0 + 2 + 2 * sl.len() <= u64::MAX;

    // add the bond connection; it autoconnects, which brings its own
    // activation up alongside it
    let added = match client.answer(&BackendOp::AddConnection(profile.clone())) {
        BackendEvent::Added(Some(sc)) => sc,
        _ => {
            proof {
                if pok {
                    assert(false);
                }
            }
            return Err(NmError::BackendOperationFailed);
        },
    };
    proof {
        if pok {
            assert(crate::model::stored_list_view(client.connections@) =~= s0.push(bond_stored));
            assert(crate::model::active_list_view(client.active@) =~= a0.push(bond_active));
        }
    }

    // add each slave's wired connection and activate it against its device
    let mut k: usize = 0;
    while k < n
        invariant
            k <= n,
            n == slaves@.len(),
            sl == str_seq_view(slaves@),
            bv == bond_ifname@,
            n0 == old(client).next_handle,
            s0 == crate::model::stored_list_view(old(client).connections@),
            a0 == crate::model::active_list_view(old(client).active@),
            bond_stored == (crate::connection::StoredConnectionView {
                handle: n0,
                profile: profile@,
            }),
            bond_active == (crate::connection::ActiveConnectionView {
                handle: (n0 + 1) as u64,
                connection: bond_stored,
                state: old(client).new_active_state,
                ip4_addresses: Seq::empty(),
            }),
            pok == (spec_get_active_connection(ConnectionKind::Bond, profile@, old(
                client,
            ).active@) is None && ns && (forall|i: int|
                0 <= i < sl.len() ==> spec_get_active_connection(
                    ConnectionKind::Wired,
                    spec_wired_profile(#[trigger] sl[i], MasterFilterView::Any),
                    old(client).active@,
                ) is None) && (forall|i: int|
                0 <= i < sl.len() ==> crate::util::str_seq_view(old(client).devices@).contains(
                    #[trigger] sl[i],
                )) && crate::model::spec_handles_ok(old(client)) && n0 + 2 + 2 * sl.len()
                <= u64::MAX),
            ns == (forall|i: int|
                0 <= i < str_seq_view(slaves@).len() ==> spec_get_active_connection(
                    ConnectionKind::Wired,
                    spec_wired_profile(
                        #[trigger] str_seq_view(slaves@)[i],
                        MasterFilterView::Unset,
                    ),
                    old(client).active@,
                ) is None),
            spec_create_bond_new(opts@) == Ok::<ProfileView, NmError>(profile@),
            spec_get_connection(ConnectionKind::Bond, profile@, old(client).connections@) is None,
            opts@.slave_ifnames == str_seq_view(slaves@),
            opts@.bond_ifname.unwrap() == bond_ifname@,
            crate::connection::spec_activation_step(old(client).notified_state) is Some,
            client.notified_state == old(client).notified_state,
            ns ==> (forall|i: int|
                0 <= i < sl.len() ==> spec_get_active_connection(
                    ConnectionKind::Wired,
                    spec_wired_profile(#[trigger] sl[i], MasterFilterView::Any),
                    old(client).active@,
                ) is None),
            ns ==> (forall|i: int|
                0 <= i < sl.len() ==> crate::util::str_seq_view(old(client).devices@).contains(
                    #[trigger] sl[i],
                )),
            pok ==> ({
                &&& crate::model::stored_list_view(client.connections@) == s0.push(bond_stored)
                    + spec_added_slaves_stored(sl, bv, n0 + 2, k as int)
                &&& crate::model::active_list_view(client.active@) == a0.push(bond_active)
                    + spec_added_slaves_active(
                    sl,
                    bv,
                    n0 + 2,
                    k as int,
                    old(client).new_active_state,
                )
                &&& client.next_handle == n0 + 2 + 2 * k
                &&& client.devices@ == old(client).devices@
                &&& client.new_active_state == old(client).new_active_state
            }),
        decreases n - k,
    {
        let wired = create_wired_connection(
            slaves[k].as_str(),
            MasterFilter::Named(bond_ifname.clone()),
        );
        proof {
            if pok {
                // fresh handles remain for this slave's record and activation
                lemma_added_slaves_stored_props(sl, bv, n0 + 2, k as int);
                lemma_added_slaves_active_props(
                    sl,
                    bv,
                    n0 + 2,
                    k as int,
                    old(client).new_active_state,
                );
                let sv = crate::model::stored_list_view(client.connections@);
                assert forall|x: int| 0 <= x < client.connections@.len() implies (
                #[trigger] client.connections@[x]@).handle < client.next_handle by {
                    assert(client.connections@[x]@ == sv[x]);
                    if x < s0.len() {
                        assert(sv[x] == s0[x]);
                        assert(old(client).connections@[x]@.handle < n0);
                    } else if x == s0.len() {
                        assert(sv[x] == bond_stored);
                    } else {
                        assert(sv[x] == spec_added_slaves_stored(sl, bv, n0 + 2, k as int)[x - s0.len()
                            - 1]);
                    }
                }
                let av = crate::model::active_list_view(client.active@);
                assert forall|x: int| 0 <= x < client.active@.len() implies (
                #[trigger] client.active@[x]@).connection.handle < client.next_handle by {
                    assert(client.active@[x]@ == av[x]);
                    if x < a0.len() {
                        assert(av[x] == a0[x]);
                        assert(old(client).active@[x]@.handle < n0);
                        assert(old(client).active@[x]@.connection.handle < n0);
                    } else if x == a0.len() {
                        assert(av[x] == bond_active);
                    } else {
                        assert(av[x] == spec_added_slaves_active(
                            sl,
                            bv,
                            n0 + 2,
                            k as int,
                            old(client).new_active_state,
                        )[x - a0.len() - 1]);
                    }
                }
                assert(crate::model::spec_room_for_two(client));
            }
        }
        let dev = crate::connection::clone_opt_string(&slaves_name_of(&slaves, k));
        let res = crate::model::add_activate_and_wait(
            client,
            wired,
            match dev {
                Some(d) => d,
                None => String::new(),
            },
            crate::model::WaitPolicy::Never,
        );
        match res {
            Ok(()) => {},
            Err(e) => {
                proof {
                    if pok {
                        assert(false);
                    }
                }
                return Err(e);
            },
        }
        proof {
            if pok {
                assert(sl[k as int] == slaves@[k as int]@);
                assert(spec_added_slaves_stored(sl, bv, n0 + 2, k as int + 1)
                    =~= spec_added_slaves_stored(sl, bv, n0 + 2, k as int).push(
                    crate::connection::StoredConnectionView {
                        handle: (n0 + 2 + 2 * k) as u64,
                        profile: spec_wired_profile(sl[k as int], MasterFilterView::Named(bv)),
                    },
                ));
                assert(crate::model::stored_list_view(client.connections@) =~= s0.push(
                    bond_stored,
                ) + spec_added_slaves_stored(sl, bv, n0 + 2, k as int + 1));
                assert(spec_added_slaves_active(
                    sl,
                    bv,
                    n0 + 2,
                    k as int + 1,
                    old(client).new_active_state,
                ) =~= spec_added_slaves_active(
                    sl,
                    bv,
                    n0 + 2,
                    k as int,
                    old(client).new_active_state,
                ).push(
                    crate::connection::ActiveConnectionView {
                        handle: (n0 + 2 + 2 * k + 1) as u64,
                        connection: crate::connection::StoredConnectionView {
                            handle: (n0 + 2 + 2 * k) as u64,
                            profile: spec_wired_profile(sl[k as int], MasterFilterView::Named(bv)),
                        },
                        state: old(client).new_active_state,
                        ip4_addresses: Seq::empty(),
                    },
                ));
                assert(crate::model::active_list_view(client.active@) =~= a0.push(bond_active)
                    + spec_added_slaves_active(
                    sl,
                    bv,
                    n0 + 2,
                    k as int + 1,
                    old(client).new_active_state,
                ));
            }
        }
        k += 1;
    }

    // resolve the bond's own activation and follow its state out
    match get_active_connection(ConnectionKind::Bond, &profile, &client.active) {
        None => {
            proof {
                if pok {
                    crate::model::lemma_bond_profile_self_match(profile@);
                    let base = a0.len() as int;
                    assert(crate::model::active_list_view(client.active@)[base] == bond_active);
                    assert(client.active@[base]@ == bond_active);
                    crate::connection::lemma_first_active_match_props(
                        ConnectionKind::Bond,
                        profile@,
                        client.active@,
                        0,
                    );
                    assert(false);
                }
            }
            return Err(NmError::NotActive);
        },
        Some(j) => {
            proof {
                if pok {
                    crate::model::lemma_bond_profile_self_match(profile@);
                    let base = a0.len() as int;
                    assert(crate::model::active_list_view(client.active@)[base] == bond_active);
                    assert(client.active@[base]@ == bond_active);
                    crate::connection::lemma_first_active_match_props(
                        ConnectionKind::Bond,
                        profile@,
                        client.active@,
                        0,
                    );
                    if (j as int) < base {
                        let av = crate::model::active_list_view(client.active@);
                        assert(client.active@[j as int]@ == av[j as int]);
                        assert(av[j as int] == a0[j as int]);
                        assert(client.active@[j as int]@ == old(client).active@[j as int]@);
                        crate::connection::lemma_first_active_match_props(
                            ConnectionKind::Bond,
                            profile@,
                            old(client).active@,
                            0,
                        );
                        assert(false);
                    }
                    assert(j as int == base);
                    assert(client.active@[j as int]@.state == old(client).new_active_state);
                }
            }
            let st = client.active[j].state;
            let settled = match st {
                ActivationState::Activated => true,
                _ => false,
            };
            if settled {
                return Ok(());
            }
            let handle = client.active[j].handle;
            match client.answer(&BackendOp::Subscribe(handle)) {
                BackendEvent::StateChanged(st2) => match crate::connection::activation_step(st2) {
                    Some(res2) => res2,
                    None => {
                        proof {
                            assert(false);
                        }
                        Err(NmError::ActivationFailed)
                    },
                },
                _ => {
                    proof {
                        assert(false);
                    }
                    Err(NmError::ActivationFailed)
                },
            }
        },
    }
}

/// The slave interface name at the given position, cloned for handing on.
fn slaves_name_of(slaves: &Vec<String>, k: usize) -> (r: Option<String>)
    requires
        k < slaves@.len(),
    ensures
        r matches Some(d) && d@ == slaves@[k as int]@,
{
    Some(slaves[k].clone())
}

/// The interface names, in scan order, of the stored connections at the
/// given indices, keeping only those that have one.
pub open spec fn spec_names_at(
    conns: Seq<crate::connection::StoredConnection>,
    indices: Seq<usize>,
    k: int,
) -> Seq<Seq<char>>
    decreases k,
{
    if k <= 0 {
        Seq::empty()
    } else {
        let rest = spec_names_at(conns, indices, k - 1);
        match conns[indices[k - 1] as int]@.profile.interface_name {
            Some(n) => rest.push(n),
            None => rest,
        }
    }
}

/// The interface names of the stored wired connections enslaved to `master`.
pub open spec fn spec_slave_names(
    master: Seq<char>,
    conns: Seq<crate::connection::StoredConnection>,
) -> Seq<Seq<char>> {
    let v = crate::connection::spec_slave_indices(master, conns, conns.len() as int);
    spec_names_at(conns, v, v.len() as int)
}

/// Collects the interface names of the stored wired connections enslaved to
/// `master_ifname`.
fn collect_slave_names(
    master_ifname: &String,
    connections: &Vec<crate::connection::StoredConnection>,
) -> (r: Vec<String>)
    ensures
        str_seq_view(r@) == spec_slave_names(master_ifname@, connections@),
{
    let indices = crate::connection::get_slave_connections(master_ifname.as_str(), connections);
    let total = connections.len();
    proof {
        assert(connections@.len() == total);
        crate::connection::lemma_slave_indices_props(
            master_ifname@,
            connections@,
            connections@.len() as int,
        );
    }
    let mut names: Vec<String> = Vec::new();
    let mut i: usize = 0;
    proof {
        assert(str_seq_view(names@) =~= spec_names_at(connections@, indices@, 0));
    }
    while i < indices.len()
        invariant
            i <= indices@.len(),
            indices@ == crate::connection::spec_slave_indices(
                master_ifname@,
                connections@,
                connections@.len() as int,
            ),
            forall|k: int| 0 <= k < indices@.len() ==> indices@[k] < connections@.len(),
            str_seq_view(names@) == spec_names_at(connections@, indices@, i as int),
        decreases indices@.len() - i,
    {
        let ghost pre = str_seq_view(names@);
        let idx = indices[i];
        match &connections[idx].profile.interface_name {
            Some(n) => {
                names.push(n.clone());
                proof {
                    assert(str_seq_view(names@) =~= pre.push(
                        connections@[idx as int]@.profile.interface_name.unwrap(),
                    ));
                }
            },
            None => {},
        }
        i += 1;
    }
    names
}

/// The handles of the stored wired connections that a bond deletion also
/// deletes: for each of the first `k` user-named slaves, in order, the first
/// stored connection matching the slave-of-this-bond template, provided the
/// name is confirmed among the bond's enumerated slaves.
pub open spec fn spec_slave_deletion_plan(
    bond: Seq<char>,
    user: Seq<Seq<char>>,
    conns: Seq<crate::connection::StoredConnection>,
    k: int,
) -> Seq<u64>
    decreases k,
{
    if k <= 0 {
        Seq::empty()
    } else {
        let rest = spec_slave_deletion_plan(bond, user, conns, k - 1);
        let s = user[k - 1];
        if spec_slave_names(bond, conns).contains(s) {
            match spec_get_connection(
                ConnectionKind::Wired,
                spec_wired_profile(s, MasterFilterView::Named(bond)),
                conns,
            ) {
                Some(i) => rest.push(conns[i]@.handle),
                None => rest,
            }
        } else {
            rest
        }
    }
}

/// A deletion plan never holds more entries than user-named slaves.
pub proof fn lemma_deletion_plan_len(
    bond: Seq<char>,
    user: Seq<Seq<char>>,
    conns: Seq<crate::connection::StoredConnection>,
    k: int,
)
    ensures
        spec_slave_deletion_plan(bond, user, conns, k).len() <= (if k <= 0 {
            0int
        } else {
            k
        }),
    decreases k,
{
    if k > 0 {
        lemma_deletion_plan_len(bond, user, conns, k - 1);
    }
}

/// Where a bond deletion stands, and which answer it waits for.
#[derive(Debug)]
pub enum DeleteBondPhase {
    /// Looking the bond connection up; it must exist.
    AwaitConnections,
    /// Looking for the bond's active connection.
    AwaitActives { bond_handle: u64 },
    /// Waiting for the bond to go down, which cascades to its slaves.
    AwaitDeactivated { bond_handle: u64 },
    /// Waiting for the stored bond connection to disappear.
    AwaitDeleted,
    /// Fetching the stored connections again to enumerate the bond's slaves.
    AwaitSlaveList,
    /// Deleting the planned slave connections one at a time; `next` points
    /// past the deletion in flight.
    AwaitSlaveDeleted { pending: Vec<u64>, next: usize },
    /// The deletion has finished, one way or the other.
    Done,
}

/// The event shape each phase of a bond deletion consumes.
pub open spec fn delete_bond_wants(phase: DeleteBondPhase) -> EventTag {
    match phase {
        DeleteBondPhase::AwaitConnections => EventTag::Connections,
        DeleteBondPhase::AwaitActives { .. } => EventTag::ActiveConnections,
        DeleteBondPhase::AwaitDeactivated { .. } => EventTag::Deactivated,
        DeleteBondPhase::AwaitDeleted => EventTag::Deleted,
        DeleteBondPhase::AwaitSlaveList => EventTag::Connections,
        DeleteBondPhase::AwaitSlaveDeleted { .. } => EventTag::Deleted,
        DeleteBondPhase::Done => EventTag::Connections,
    }
}

/// The state machine of one bond deletion.
#[derive(Debug)]
pub struct DeleteBond {
    /// The bond profile used as the search template.
    pub profile: ConnectionProfile,
    pub bond_ifname: String,
    /// The user-named slave interfaces whose wired connections should be
    /// deleted along with the bond when they really belong to it.
    pub slaves: Vec<String>,
    pub phase: DeleteBondPhase,
}

/// What validating bond-deletion options yields before any backend call.
pub open spec fn spec_delete_bond_new(o: BondOptsView) -> Result<ProfileView, NmError> {
    if o.bond_ifname is None {
        Err(NmError::MissingBondInterface)
    } else if exists|i: int| 0 <= i < o.slave_ifnames.len() && o.slave_ifnames[i].len() == 0 {
        Err(NmError::EmptySlaveName)
    } else {
        spec_create_bond_connection(o)
    }
}

/// How far a bond deletion still has to go.
pub open spec fn delete_bond_rank(m: DeleteBond) -> int {
    let u = m.slaves@.len() as int;
    match m.phase {
        DeleteBondPhase::Done => 0,
        DeleteBondPhase::AwaitSlaveDeleted { pending, next } => 1 + (pending@.len() - next),
        DeleteBondPhase::AwaitSlaveList => 2 + u,
        DeleteBondPhase::AwaitDeleted => 3 + u,
        DeleteBondPhase::AwaitDeactivated { .. } => 4 + u,
        DeleteBondPhase::AwaitActives { .. } => 5 + u,
        DeleteBondPhase::AwaitConnections => 6 + u,
    }
}

impl DeleteBond {
    /// The machine's structural invariant.
    pub open spec fn wf(&self) -> bool {
        &&& self.profile@.kind == Some(ConnectionKind::Bond)
        &&& self.profile@.id is Some
        &&& self.profile@.interface_name == Some(self.bond_ifname@)
        &&& match self.phase {
            DeleteBondPhase::AwaitSlaveDeleted { pending, next } => 1 <= next
                <= pending@.len(),
            _ => true,
        }
    }

    /// Validates the options and builds the machine together with its first
    /// request, without any backend interaction.
    pub fn new(opts: &BondOpts) -> (r: Result<(DeleteBond, BackendOp), NmError>)
        ensures
            match spec_delete_bond_new(opts@) {
                Err(e) => r == Err::<(DeleteBond, BackendOp), NmError>(e),
                Ok(p) => r matches Ok(pair) && pair.0.wf() && pair.0.profile@ == p
                    && pair.0.bond_ifname@ == opts@.bond_ifname.unwrap() && str_seq_view(
                    pair.0.slaves@,
                ) == opts@.slave_ifnames && pair.0.phase == DeleteBondPhase::AwaitConnections
                    && pair.1 == BackendOp::ListConnections,
            },
    {
        let bond_ifname = match &opts.bond_ifname {
            Some(ifname) => ifname.clone(),
            None => {
                return Err(NmError::MissingBondInterface);
            },
        };
        let mut i: usize = 0;
        while i < opts.slave_ifnames.len()
            invariant
                i <= opts.slave_ifnames@.len(),
                opts@.bond_ifname is Some,
                forall|j: int| 0 <= j < i ==> opts.slave_ifnames@[j]@.len() != 0,
            decreases opts.slave_ifnames@.len() - i,
        {
            if opts.slave_ifnames[i].as_str().unicode_len() == 0 {
                proof {
                    assert(opts@.slave_ifnames[i as int] == opts.slave_ifnames@[i as int]@);
                    assert(exists|j: int|
                        0 <= j < opts@.slave_ifnames.len() && opts@.slave_ifnames[j].len() == 0);
                }
                return Err(NmError::EmptySlaveName);
            }
            i += 1;
        }
        proof {
            assert forall|j: int|
                0 <= j < opts@.slave_ifnames.len() implies opts@.slave_ifnames[j].len() != 0 by {
                assert(opts@.slave_ifnames[j] == opts.slave_ifnames@[j]@);
            }
        }
        let profile = match create_bond_connection(opts) {
            Ok(p) => p,
            Err(e) => {
                return Err(e);
            },
        };
        let slaves = crate::connection::clone_string_list(&opts.slave_ifnames);
        proof {
            assert(str_seq_view(slaves@) =~= opts@.slave_ifnames);
        }
        Ok(
            (
                DeleteBond {
                    profile,
                    bond_ifname,
                    slaves,
                    phase: DeleteBondPhase::AwaitConnections,
                },
                BackendOp::ListConnections,
            ),
        )
    }

    /// Consumes one backend answer and produces the next request.
    ///
    /// The transitions mirror the deletion sequence: the bond connection
    /// must exist; it is deactivated when active, which the backend cascades
    /// to its slaves; the stored bond connection is deleted; and each
    /// user-named slave's wired connection is deleted only when it is
    /// confirmed among the bond's enumerated slaves.
    pub fn step(self, event: BackendEvent) -> (r: (DeleteBond, BackendOp))
        requires
            self.wf(),
            !(self.phase matches DeleteBondPhase::Done),
            event_tag(event) == delete_bond_wants(self.phase),
        ensures
            r.0.wf(),
            r.0.profile@ == self.profile@,
            r.0.bond_ifname@ == self.bond_ifname@,
            str_seq_view(r.0.slaves@) == str_seq_view(self.slaves@),
            r.0.slaves@.len() == self.slaves@.len(),
            (r.1 matches BackendOp::Finish(_)) <==> (r.0.phase matches DeleteBondPhase::Done),
            op_event_tag(r.1) matches Some(t) ==> t == delete_bond_wants(r.0.phase),
            !(r.1 matches BackendOp::Finish(_)) ==> delete_bond_rank(r.0) < delete_bond_rank(self),
            ({
                match (self.phase, event) {
                    (DeleteBondPhase::AwaitConnections, BackendEvent::Connections(conns)) => {
                        match spec_get_connection(ConnectionKind::Bond, self.profile@, conns@) {
                            None => r.1 == BackendOp::Finish(Err::<(), NmError>(NmError::NotFound)),
                            Some(i) => r.0.phase == (DeleteBondPhase::AwaitActives {
                                bond_handle: conns@[i].handle,
                            }) && r.1 == BackendOp::ListActiveConnections,
                        }
                    },
                    (
                        DeleteBondPhase::AwaitActives { bond_handle },
                        BackendEvent::ActiveConnections(actives),
                    ) => {
                        match spec_get_active_connection(
                            ConnectionKind::Bond,
                            self.profile@,
                            actives@,
                        ) {
                            Some(j) => r.0.phase == (DeleteBondPhase::AwaitDeactivated {
                                bond_handle,
                            }) && r.1 == BackendOp::DeactivateConnection(actives@[j].handle),
                            None => r.0.phase == DeleteBondPhase::AwaitDeleted && r.1
                                == BackendOp::DeleteConnection(bond_handle),
                        }
                    },
                    (
                        DeleteBondPhase::AwaitDeactivated { bond_handle },
                        BackendEvent::Deactivated(ok),
                    ) => {
                        if !ok {
                            r.1 == BackendOp::Finish(
                                Err::<(), NmError>(NmError::BackendOperationFailed),
                            )
                        } else {
                            r.0.phase == DeleteBondPhase::AwaitDeleted && r.1
                                == BackendOp::DeleteConnection(bond_handle)
                        }
                    },
                    (DeleteBondPhase::AwaitDeleted, BackendEvent::Deleted(ok)) => {
                        if !ok {
                            r.1 == BackendOp::Finish(
                                Err::<(), NmError>(NmError::BackendOperationFailed),
                            )
                        } else {
                            r.0.phase == DeleteBondPhase::AwaitSlaveList && r.1
                                == BackendOp::ListConnections
                        }
                    },
                    (DeleteBondPhase::AwaitSlaveList, BackendEvent::Connections(conns)) => {
                        let plan = spec_slave_deletion_plan(
                            self.bond_ifname@,
                            str_seq_view(self.slaves@),
                            conns@,
                            self.slaves@.len() as int,
                        );
                        if plan.len() == 0 {
                            r.1 == BackendOp::Finish(Ok::<(), NmError>(()))
                        } else {
                            (r.0.phase matches DeleteBondPhase::AwaitSlaveDeleted {
                                pending,
                                next,
                            } && pending@ == plan && next == 1) && r.1
                                == BackendOp::DeleteConnection(plan[0])
                        }
                    },
                    (
                        DeleteBondPhase::AwaitSlaveDeleted { pending, next },
                        BackendEvent::Deleted(ok),
                    ) => {
                        if !ok {
                            r.1 == BackendOp::Finish(
                                Err::<(), NmError>(NmError::BackendOperationFailed),
                            )
                        } else if next < pending@.len() {
                            (r.0.phase matches DeleteBondPhase::AwaitSlaveDeleted {
                                pending: pending2,
                                next: next2,
                            } && pending2@ == pending@ && next2 == next + 1) && r.1
                                == BackendOp::DeleteConnection(pending@[next as int])
                        } else {
                            r.1 == BackendOp::Finish(Ok::<(), NmError>(()))
                        }
                    },
                    _ => true,
                }
            }),
    {
        let DeleteBond { profile, bond_ifname, slaves, phase } = self;
        match (phase, event) {
            (DeleteBondPhase::AwaitConnections, BackendEvent::Connections(conns)) => {
                match get_connection(ConnectionKind::Bond, &profile, &conns) {
                    None => (
                        DeleteBond { profile, bond_ifname, slaves, phase: DeleteBondPhase::Done },
                        BackendOp::Finish(Err(NmError::NotFound)),
                    ),
                    Some(i) => {
                        let bond_handle = conns[i].handle;
                        (
                            DeleteBond {
                                profile,
                                bond_ifname,
                                slaves,
                                phase: DeleteBondPhase::AwaitActives { bond_handle },
                            },
                            BackendOp::ListActiveConnections,
                        )
                    },
                }
            },
            (
                DeleteBondPhase::AwaitActives { bond_handle },
                BackendEvent::ActiveConnections(actives),
            ) => {
                match get_active_connection(ConnectionKind::Bond, &profile, &actives) {
                    Some(j) => {
                        let handle = actives[j].handle;
                        (
                            DeleteBond {
                                profile,
                                bond_ifname,
                                slaves,
                                phase: DeleteBondPhase::AwaitDeactivated { bond_handle },
                            },
                            BackendOp::DeactivateConnection(handle),
                        )
                    },
                    None => (
                        DeleteBond {
                            profile,
                            bond_ifname,
                            slaves,
                            phase: DeleteBondPhase::AwaitDeleted,
                        },
                        BackendOp::DeleteConnection(bond_handle),
                    ),
                }
            },
            (DeleteBondPhase::AwaitDeactivated { bond_handle }, BackendEvent::Deactivated(ok)) => {
                if !ok {
                    (
                        DeleteBond { profile, bond_ifname, slaves, phase: DeleteBondPhase::Done },
                        BackendOp::Finish(Err(NmError::BackendOperationFailed)),
                    )
                } else {
                    (
                        DeleteBond {
                            profile,
                            bond_ifname,
                            slaves,
                            phase: DeleteBondPhase::AwaitDeleted,
                        },
                        BackendOp::DeleteConnection(bond_handle),
                    )
                }
            },
            (DeleteBondPhase::AwaitDeleted, BackendEvent::Deleted(ok)) => {
                if !ok {
                    (
                        DeleteBond { profile, bond_ifname, slaves, phase: DeleteBondPhase::Done },
                        BackendOp::Finish(Err(NmError::BackendOperationFailed)),
                    )
                } else {
                    (
                        DeleteBond {
                            profile,
                            bond_ifname,
                            slaves,
                            phase: DeleteBondPhase::AwaitSlaveList,
                        },
                        BackendOp::ListConnections,
                    )
                }
            },
            (DeleteBondPhase::AwaitSlaveList, BackendEvent::Connections(conns)) => {
                let names = collect_slave_names(&bond_ifname, &conns);
                let mut pending: Vec<u64> = Vec::new();
                let mut i: usize = 0;
                proof {
                    assert(pending@ =~= spec_slave_deletion_plan(
                        bond_ifname@,
                        str_seq_view(slaves@),
                        conns@,
                        0,
                    ));
                }
                while i < slaves.len()
                    invariant
                        i <= slaves@.len(),
                        str_seq_view(names@) == spec_slave_names(bond_ifname@, conns@),
                        pending@ == spec_slave_deletion_plan(
                            bond_ifname@,
                            str_seq_view(slaves@),
                            conns@,
                            i as int,
                        ),
                    decreases slaves@.len() - i,
                {
                    let ghost pre = pending@;
                    if crate::util::contains_string(&names, &slaves[i]) {
                        let t = create_wired_connection(
                            slaves[i].as_str(),
                            MasterFilter::Named(bond_ifname.clone()),
                        );
                        match get_connection(ConnectionKind::Wired, &t, &conns) {
                            Some(k) => {
                                pending.push(conns[k].handle);
                                proof {
                                    assert(pending@ =~= pre.push(conns@[k as int].handle));
                                    assert(str_seq_view(slaves@)[i as int] == slaves@[i as int]@);
                                }
                            },
                            None => {
                                proof {
                                    assert(str_seq_view(slaves@)[i as int] == slaves@[i as int]@);
                                }
                            },
                        }
                    } else {
                        proof {
                            assert(str_seq_view(slaves@)[i as int] == slaves@[i as int]@);
                        }
                    }
                    i += 1;
                }
                proof {
                    lemma_deletion_plan_len(
                        bond_ifname@,
                        str_seq_view(slaves@),
                        conns@,
                        slaves@.len() as int,
                    );
                }
                if pending.len() == 0 {
                    (
                        DeleteBond { profile, bond_ifname, slaves, phase: DeleteBondPhase::Done },
                        BackendOp::Finish(Ok(())),
                    )
                } else {
                    let first = pending[0];
                    (
                        DeleteBond {
                            profile,
                            bond_ifname,
                            slaves,
                            phase: DeleteBondPhase::AwaitSlaveDeleted { pending, next: 1 },
                        },
                        BackendOp::DeleteConnection(first),
                    )
                }
            },
            (DeleteBondPhase::AwaitSlaveDeleted { pending, next }, BackendEvent::Deleted(ok)) => {
                if !ok {
                    (
                        DeleteBond { profile, bond_ifname, slaves, phase: DeleteBondPhase::Done },
                        BackendOp::Finish(Err(NmError::BackendOperationFailed)),
                    )
                } else if next < pending.len() {
                    let handle = pending[next];
                    (
                        DeleteBond {
                            profile,
                            bond_ifname,
                            slaves,
                            phase: DeleteBondPhase::AwaitSlaveDeleted { pending, next: next + 1 },
                        },
                        BackendOp::DeleteConnection(handle),
                    )
                } else {
                    (
                        DeleteBond { profile, bond_ifname, slaves, phase: DeleteBondPhase::Done },
                        BackendOp::Finish(Ok(())),
                    )
                }
            },
            (phase, _) => {
                proof {
                    assert(false);
                }
                (
                    DeleteBond { profile, bond_ifname, slaves, phase: DeleteBondPhase::Done },
                    BackendOp::Finish(Err(NmError::BackendOperationFailed)),
                )
            },
        }
    }
}

// Runs a bond deletion to completion against a backend. Validation failures
// surface before anything is asked of the backend; the bond connection must
// exist and is deactivated first when active, which the backend cascades to
// its slaves; the stored bond record is deleted; and each user-named slave's
// wired connection is deleted only when it is confirmed among the bond's
// enumerated slaves, so that unrelated connections sharing an interface name
// survive.
#[verifier::rlimit(100)]
pub fn delete_bond(client: &mut BackendModel, opts: &BondOpts) -> (r: Result<(), NmError>)
    ensures
        spec_delete_bond_new(opts@) matches Err(e) ==> r == Err::<(), NmError>(e)
            && crate::model::model_unchanged(old(client), final(client)),
        (spec_delete_bond_new(opts@) matches Ok(p) && spec_get_connection(
            ConnectionKind::Bond,
            p,
            old(client).connections@,
        ) is None) ==> r == Err::<(), NmError>(NmError::NotFound)
            && crate::model::model_unchanged(old(client), final(client)),
        ({
            match spec_delete_bond_new(opts@) {
                Ok(p) => match spec_get_connection(
                    ConnectionKind::Bond,
                    p,
                    old(client).connections@,
                ) {
                    Some(k) => {
                        let h = old(client).connections@[k]@.handle;
                        &&& r == Ok::<(), NmError>(())
                        &&& (opts@.slave_ifnames.len() == 0
                            ==> crate::model::stored_list_view(final(client).connections@)
                            == crate::model::stored_list_view(old(client).connections@).filter(
                            |c: crate::connection::StoredConnectionView| c.handle != h,
                        ))
                        &&& ((opts@.slave_ifnames.len() == 0 && (forall|j: int|
                            0 <= j < old(client).connections@.len()
                                && crate::connection::spec_kind_match(
                                ConnectionKind::Bond,
                                p,
                                #[trigger] old(client).connections@[j]@.profile,
                            ) ==> j == k)) ==> spec_get_connection(
                            ConnectionKind::Bond,
                            p,
                            final(client).connections@,
                        ) is None)
                    },
                    None => true,
                },
                Err(_) => true,
            }
        }),
{
    let (m, _) = match DeleteBond::new(opts) {
        Ok(pair) => pair,
        Err(e) => {
            return Err(e);
        },
    };
    let DeleteBond { profile, bond_ifname, slaves, phase: _ } = m;
    let k = match get_connection(ConnectionKind::Bond, &profile, &client.connections) {
        Some(k) => k,
        None => {
            return Err(NmError::NotFound);
        },
    };
    let h = client.connections[k].handle;

    // deactivate the bond's activation when it has one; the backend cascades
    // the deactivation to the bond's slaves
    match get_active_connection(ConnectionKind::Bond, &profile, &client.active) {
        Some(j) => {
            let ah = client.active[j].handle;
            let _ = client.answer(&BackendOp::DeactivateConnection(ah));
        },
        None => {},
    }

    // delete the stored bond record
    proof {
        crate::model::lemma_find_stored_by_handle_props(client.connections@, h, 0);
        match crate::model::spec_find_stored_by_handle(client.connections@, h, 0) {
            Some(_) => {},
            None => {
                assert(client.connections@[k as int]@.handle == h);
                assert(false);
            },
        }
    }
    match client.answer(&BackendOp::DeleteConnection(h)) {
        BackendEvent::Deleted(true) => {},
        _ => {
            proof {
                assert(false);
            }
            return Err(NmError::BackendOperationFailed);
        },
    }
    let ghost mid_stored = client.connections@;

    // delete each user-named slave confirmed among this bond's slaves
    let res = delete_confirmed_slaves(client, &bond_ifname, &slaves);
    proof {
        if slaves@.len() == 0 {
            assert(final(client).connections@ == mid_stored);
            if forall|j: int|
                0 <= j < old(client).connections@.len() && crate::connection::spec_kind_match(
                    ConnectionKind::Bond,
                    profile@,
                    #[trigger] old(client).connections@[j]@.profile,
                ) ==> j == k as int {
                crate::model::lemma_delete_removes_only_match(
                    ConnectionKind::Bond,
                    profile@,
                    old(client).connections@,
                    final(client).connections@,
                    k as int,
                    h,
                );
            }
        }
    }
    res
}

/// Deletes each user-named slave's wired connection when it is confirmed
/// among the stored connections enslaved to the bond, skipping unconfirmed
/// names; the deletions always go through, since each handle is read fresh
/// from the stored list it is deleted from.
#[verifier::rlimit(100)]
fn delete_confirmed_slaves(
    client: &mut BackendModel,
    bond_ifname: &String,
    slaves: &Vec<String>,
) -> (r: Result<(), NmError>)
    ensures
        r == Ok::<(), NmError>(()),
        slaves@.len() == 0 ==> crate::model::model_unchanged(old(client), final(client)),
{
    let names = collect_slave_names(bond_ifname, &client.connections);
    let mut t: usize = 0;
    while t < slaves.len()
        invariant
            t <= slaves@.len(),
            slaves@.len() == 0 ==> crate::model::model_unchanged(old(client), client),
        decreases slaves@.len() - t,
    {
        if crate::util::contains_string(&names, &slaves[t]) {
            let template = create_wired_connection(
                slaves[t].as_str(),
                MasterFilter::Named(bond_ifname.clone()),
            );
            match get_connection(ConnectionKind::Wired, &template, &client.connections) {
                Some(w) => {
                    let wh = client.connections[w].handle;
                    proof {
                        crate::model::lemma_find_stored_by_handle_props(
                            client.connections@,
                            wh,
                            0,
                        );
                        match crate::model::spec_find_stored_by_handle(
                            client.connections@,
                            wh,
                            0,
                        ) {
                            Some(_) => {},
                            None => {
                                assert(client.connections@[w as int]@.handle == wh);
                                assert(false);
                            },
                        }
                    }
                    match client.answer(&BackendOp::DeleteConnection(wh)) {
                        BackendEvent::Deleted(true) => {},
                        _ => {
                            proof {
                                assert(false);
                            }
                            return Err(NmError::BackendOperationFailed);
                        },
                    }
                },
                None => {},
            }
        }
        t += 1;
    }
    Ok(())
}

/// A bond's status: its reported activation state, the interface names of
/// its slaves, and its IPv4 method and addresses.
#[derive(Debug)]
pub struct BondStatus {
    /// The bond interface name the report is about.
    pub name: String,
    /// The active connection's state; deactivated when none is active.
    pub state: ActivationState,
    /// The interface names of the stored connections enslaved to this bond.
    pub slave_ifnames: Vec<String>,
    /// How the stored connection obtains its IPv4 configuration.
    pub ip4_method: Ip4Method,
    /// Addresses assigned on the wire, then the static one, annotated.
    pub addresses: Vec<crate::connection::StatusAddress>,
}

/// Mathematical value of a [`BondStatus`].
pub struct BondStatusView {
    pub name: Seq<char>,
    pub state: ActivationState,
    pub slave_ifnames: Seq<Seq<char>>,
    pub ip4_method: Ip4Method,
    pub addresses: Seq<crate::connection::StatusAddressView>,
}

impl View for BondStatus {
    type V = BondStatusView;

    open spec fn view(&self) -> BondStatusView {
        BondStatusView {
            name: self.name@,
            state: self.state,
            slave_ifnames: str_seq_view(self.slave_ifnames@),
            ip4_method: self.ip4_method,
            addresses: crate::connection::status_addr_list_view(self.addresses@),
        }
    }
}

/// What a bond status query reports: the options must validate and the
/// profile must build; the state and live addresses come from the matching
/// active connection, defaulting to deactivated; the stored connection must
/// exist and carry IPv4 settings, whose static address is appended last.
pub open spec fn spec_bond_status(
    o: BondOptsView,
    conns: Seq<crate::connection::StoredConnection>,
    actives: Seq<crate::connection::ActiveConnection>,
) -> Result<BondStatusView, NmError> {
    if o.bond_ifname is None {
        Err(NmError::MissingBondInterface)
    } else if exists|i: int| 0 <= i < o.slave_ifnames.len() && o.slave_ifnames[i].len() == 0 {
        Err(NmError::EmptySlaveName)
    } else {
        match spec_create_bond_connection(o) {
            Err(e) => Err(e),
            Ok(p) => {
                let state = match spec_get_active_connection(ConnectionKind::Bond, p, actives) {
                    Some(j) => actives[j]@.state,
                    None => ActivationState::Deactivated,
                };
                let live = match spec_get_active_connection(ConnectionKind::Bond, p, actives) {
                    Some(j) => actives[j]@.ip4_addresses,
                    None => Seq::empty(),
                };
                match spec_get_connection(ConnectionKind::Bond, p, conns) {
                    None => Err(NmError::NotFound),
                    Some(i) => match conns[i]@.profile.ip4 {
                        None => Err(NmError::NoIp4Settings),
                        Some(ip4) => Ok(
                            BondStatusView {
                                name: o.bond_ifname.unwrap(),
                                state,
                                slave_ifnames: spec_slave_names(o.bond_ifname.unwrap(), conns),
                                ip4_method: ip4.method,
                                addresses: crate::connection::spec_active_addr_views(live)
                                    + (match ip4.address {
                                    Some(c) => seq![
                                        crate::connection::StatusAddressView {
                                            text: crate::ip4::spec_cidr_chars(c),
                                            source: crate::connection::AddrSource::Static,
                                        },
                                    ],
                                    None => Seq::empty(),
                                }),
                            },
                        ),
                    },
                }
            },
        }
    }
}

// Reports the status of the bond the options describe, against snapshots of
// the backend's stored and active connections. Read-only: fails only when
// the options are invalid or the stored bond connection cannot be found.
pub fn bond_status(
    opts: &BondOpts,
    connections: &Vec<crate::connection::StoredConnection>,
    active_connections: &Vec<crate::connection::ActiveConnection>,
) -> (r: Result<BondStatus, NmError>)
    ensures
        match r {
            Ok(s) => spec_bond_status(opts@, connections@, active_connections@) == Ok::<
                BondStatusView,
                NmError,
            >(s@),
            Err(e) => spec_bond_status(opts@, connections@, active_connections@) == Err::<
                BondStatusView,
                NmError,
            >(e),
        },
{
    let bond_ifname = match &opts.bond_ifname {
        Some(ifname) => ifname,
        None => {
            return Err(NmError::MissingBondInterface);
        },
    };
    let mut i: usize = 0;
    while i < opts.slave_ifnames.len()
        invariant
            i <= opts.slave_ifnames@.len(),
            opts@.bond_ifname is Some,
            forall|j: int| 0 <= j < i ==> opts.slave_ifnames@[j]@.len() != 0,
        decreases opts.slave_ifnames@.len() - i,
    {
        if opts.slave_ifnames[i].as_str().unicode_len() == 0 {
            proof {
                assert(opts@.slave_ifnames[i as int] == opts.slave_ifnames@[i as int]@);
                assert(exists|j: int|
                    0 <= j < opts@.slave_ifnames.len() && opts@.slave_ifnames[j].len() == 0);
            }
            return Err(NmError::EmptySlaveName);
        }
        i += 1;
    }
    proof {
        assert forall|j: int|
            0 <= j < opts@.slave_ifnames.len() implies opts@.slave_ifnames[j].len() != 0 by {
            assert(opts@.slave_ifnames[j] == opts.slave_ifnames@[j]@);
        }
    }
    let profile = match create_bond_connection(opts) {
        Ok(p) => p,
        Err(e) => {
            return Err(e);
        },
    };
    let mut state = ActivationState::Deactivated;
    let mut addresses: Vec<crate::connection::StatusAddress> = Vec::new();
    match get_active_connection(ConnectionKind::Bond, &profile, active_connections) {
        Some(j) => {
            state = active_connections[j].state;
            addresses = crate::connection::annotate_active_addresses(
                &active_connections[j].ip4_addresses,
            );
        },
        None => {
            proof {
                assert(crate::connection::status_addr_list_view(addresses@)
                    =~= crate::connection::spec_active_addr_views(Seq::empty()));
            }
        },
    }
    let stored = match get_connection(ConnectionKind::Bond, &profile, connections) {
        Some(i) => i,
        None => {
            return Err(NmError::NotFound);
        },
    };
    let ip4 = match connections[stored].profile.ip4 {
        Some(ip4) => ip4,
        None => {
            return Err(NmError::NoIp4Settings);
        },
    };
    let ghost live_part = crate::connection::status_addr_list_view(addresses@);
    if let Some(c) = ip4.address {
        let text = crate::ip4::format_ipv4_cidr(&c);
        addresses.push(
            crate::connection::StatusAddress {
                text,
                source: crate::connection::AddrSource::Static,
            },
        );
        proof {
            assert(crate::connection::status_addr_list_view(addresses@) =~= live_part + seq![
                crate::connection::StatusAddressView {
                    text: crate::ip4::spec_cidr_chars(c),
                    source: crate::connection::AddrSource::Static,
                },
            ]);
        }
    } else {
        proof {
            assert(crate::connection::status_addr_list_view(addresses@) =~= live_part
                + Seq::<crate::connection::StatusAddressView>::empty());
        }
    }
    let names = collect_slave_names(bond_ifname, connections);
    Ok(
        BondStatus {
            name: bond_ifname.clone(),
            state,
            slave_ifnames: names,
            ip4_method: ip4.method,
            addresses,
        },
    )
}

/// Delete, then status: once no stored connection matches the bond profile —
/// which [`crate::model::lemma_delete_removes_only_match`] gives after a
/// successful deletion of the only match — a status query for the same
/// options reports that the connection does not exist.
pub proof fn lemma_bond_delete_then_status(
    o: BondOptsView,
    p: ProfileView,
    conns: Seq<crate::connection::StoredConnection>,
    actives: Seq<crate::connection::ActiveConnection>,
)
    requires
        o.bond_ifname is Some,
        !(exists|i: int| 0 <= i < o.slave_ifnames.len() && o.slave_ifnames[i].len() == 0),
        spec_create_bond_connection(o) == Ok::<ProfileView, NmError>(p),
        spec_get_connection(ConnectionKind::Bond, p, conns) is None,
    ensures
        spec_bond_status(o, conns, actives) == Err::<BondStatusView, NmError>(NmError::NotFound),
{
}

pub open spec fn spec_bond_mode_from_name(name: Seq<char>) -> Option<BondMode> {
    if name == "RoundRobin"@ {
        Some(BondMode::RoundRobin)
    } else if name == "ActiveBackup"@ {
        Some(BondMode::ActiveBackup)
    } else if name == "XOR"@ {
        Some(BondMode::XOR)
    } else if name == "Broadcast"@ {
        Some(BondMode::Broadcast)
    } else if name == "DynamicLinkAggregation"@ {
        Some(BondMode::DynamicLinkAggregation)
    } else if name == "TransmitLoadBalancing"@ {
        Some(BondMode::TransmitLoadBalancing)
    } else if name == "AdaptiveLoadBalancing"@ {
        Some(BondMode::AdaptiveLoadBalancing)
    } else {
        None
    }
}

} // verus!
