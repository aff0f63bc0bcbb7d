use vstd::prelude::*;
use vstd::string::*;

use crate::access_point::{
    create_access_point_connection, spec_create_access_point_connection,
    spec_wireless_opts_from_fields, AccessPointOpts, AccessPointOptsView,
};
use crate::cli::StationArgs;
use crate::connection::{
    get_active_connection, opt_str_view, spec_get_active_connection, ActivationState,
    ConnectionKind, ConnectionProfile, Ip4Method, Ip4Settings, MasterFilter, MasterFilterView,
    ProfileView, WifiMode, WifiSettings, WifiSettingsView,
};
use crate::error::NmError;
use crate::ip4::{parse_ipv4_cidr, spec_parse_cidr};
use crate::model::{
    event_tag, op_event_tag, BackendEvent, BackendModel, BackendOp, EventTag,
};
use crate::util::{normalize_optional, validate_password};

verus! {

/// Validated options of a station invocation.
#[derive(Debug)]
pub struct StationOpts {
    /// The radio the station associates on.
    pub wireless_ifname: Option<String>,
    /// The network name the station associates to.
    pub ssid: Option<String>,
    /// WPA pre-shared key, already validated; unset means an open network.
    pub password: Option<String>,
    /// Static IPv4 address in `a.b.c.d/len` form; unset means DHCP.
    pub ip4_addr: Option<String>,
}

/// Mathematical value of [`StationOpts`].
pub struct StationOptsView {
    pub wireless_ifname: Option<Seq<char>>,
    pub ssid: Option<Seq<char>>,
    pub password: Option<Seq<char>>,
    pub ip4_addr: Option<Seq<char>>,
}

impl View for StationOpts {
    type V = StationOptsView;

    open spec fn view(&self) -> StationOptsView {
        StationOptsView {
            wireless_ifname: opt_str_view(self.wireless_ifname),
            ssid: opt_str_view(self.ssid),
            password: opt_str_view(self.password),
            ip4_addr: opt_str_view(self.ip4_addr),
        }
    }
}

impl StationOpts {
    /// Builds validated options from raw invocation fields, under the same
    /// rules as access-point options: empty optional strings count as unset
    /// and a non-empty password must be at least eight characters and pass
    /// the backend's own key check.
    pub fn from_args(args: StationArgs, backend_psk_valid: bool) -> (r: Result<
        StationOpts,
        NmError,
    >)
        ensures
            match spec_wireless_opts_from_fields(
                opt_str_view(args.wireless_ifname),
                opt_str_view(args.ssid),
                opt_str_view(args.password),
                backend_psk_valid,
                opt_str_view(args.ip4_addr),
            ) {
                Err(e) => r == Err::<StationOpts, NmError>(e),
                Ok(o) => r matches Ok(opts) && opts@ == (StationOptsView {
                    wireless_ifname: o.wireless_ifname,
                    ssid: o.ssid,
                    password: o.password,
                    ip4_addr: o.ip4_addr,
                }),
            },
    {
        let password = match args.password {
            None => None,
            Some(p) => match validate_password(p.as_str(), backend_psk_valid) {
                Ok(pw) => pw,
                Err(e) => {
                    return Err(e);
                },
            },
        };
        Ok(
            StationOpts {
                wireless_ifname: normalize_optional(args.wireless_ifname),
                ssid: normalize_optional(args.ssid),
                password,
                ip4_addr: normalize_optional(args.ip4_addr),
            },
        )
    }

    /// The same options, read as access-point options; used to search for
    /// the opposite wireless role on the same radio.
    pub fn to_access_point_opts(&self) -> (r: AccessPointOpts)
        ensures
            r@ == (AccessPointOptsView {
                wireless_ifname: self@.wireless_ifname,
                ssid: self@.ssid,
                password: self@.password,
                ip4_addr: self@.ip4_addr,
            }),
    {
        AccessPointOpts {
            wireless_ifname: crate::connection::clone_opt_string(&self.wireless_ifname),
            ssid: crate::connection::clone_opt_string(&self.ssid),
            password: crate::connection::clone_opt_string(&self.password),
            ip4_addr: crate::connection::clone_opt_string(&self.ip4_addr),
        }
    }

    /// Access-point options read as station options, the converse direction;
    /// used by an access-point creation to search for an active station.
    pub fn from_access_point_opts(opts: &AccessPointOpts) -> (r: StationOpts)
        ensures
            r@ == (StationOptsView {
                wireless_ifname: opts@.wireless_ifname,
                ssid: opts@.ssid,
                password: opts@.password,
                ip4_addr: opts@.ip4_addr,
            }),
    {
        StationOpts {
            wireless_ifname: crate::connection::clone_opt_string(&opts.wireless_ifname),
            ssid: crate::connection::clone_opt_string(&opts.ssid),
            password: crate::connection::clone_opt_string(&opts.password),
            ip4_addr: crate::connection::clone_opt_string(&opts.ip4_addr),
        }
    }
}

/// The profile [`create_sta_connection`] builds on success.
pub open spec fn spec_sta_profile(
    ifname: Seq<char>,
    ssid: Seq<char>,
    psk: Option<Seq<char>>,
    ip4: Ip4Settings,
) -> ProfileView {
    ProfileView {
        kind: Some(ConnectionKind::Wifi),
        id: Some(ssid),
        interface_name: Some(ifname),
        autoconnect: true,
        master: MasterFilterView::Unset,
        slave_type: None,
        bond: None,
        wifi: Some(
            WifiSettingsView { mode: Some(WifiMode::Infrastructure), ssid: Some(ssid), psk },
        ),
        ip4: Some(ip4),
    }
}

/// What [`create_sta_connection`] returns: SSID and wireless interface are
/// required, a given IPv4 address must parse and makes the configuration
/// static, and without one the station uses DHCP.
pub open spec fn spec_create_sta_connection(o: StationOptsView) -> Result<ProfileView, NmError> {
    match o.ssid {
        None => Err(NmError::MissingSsid),
        Some(ssid) => match o.wireless_ifname {
            None => Err(NmError::MissingWirelessInterface),
            Some(ifname) => match o.ip4_addr {
                Some(addr) => match spec_parse_cidr(addr) {
                    None => Err(NmError::InvalidIp4Address),
                    Some(c) => Ok(
                        spec_sta_profile(
                            ifname,
                            ssid,
                            o.password,
                            Ip4Settings { method: Ip4Method::Manual, address: Some(c) },
                        ),
                    ),
                },
                None => Ok(
                    spec_sta_profile(
                        ifname,
                        ssid,
                        o.password,
                        Ip4Settings { method: Ip4Method::Auto, address: None },
                    ),
                ),
            },
        },
    }
}

// Builds the declarative station connection profile for the given options,
// ready both for submission to the backend and as a search template.
pub fn create_sta_connection(opts: &StationOpts) -> (r: Result<ConnectionProfile, NmError>)
    ensures
        match r {
            Ok(p) => spec_create_sta_connection(opts@) == Ok::<ProfileView, NmError>(p@)
                && p@.ip4.unwrap().wf(),
            Err(e) => spec_create_sta_connection(opts@) == Err::<ProfileView, NmError>(e),
        },
{
    let ssid = match &opts.ssid {
        Some(ssid) => ssid,
        None => {
            return Err(NmError::MissingSsid);
        },
    };
    let ifname = match &opts.wireless_ifname {
        Some(ifname) => ifname,
        None => {
            return Err(NmError::MissingWirelessInterface);
        },
    };
    let ip4 = match &opts.ip4_addr {
        Some(addr) => match parse_ipv4_cidr(addr.as_str()) {
            Some(c) => Ip4Settings { method: Ip4Method::Manual, address: Some(c) },
            None => {
                return Err(NmError::InvalidIp4Address);
            },
        },
        None => Ip4Settings { method: Ip4Method::Auto, address: None },
    };
    let psk = match &opts.password {
        Some(p) => Some(p.clone()),
        None => None,
    };
    Ok(
        ConnectionProfile {
            kind: Some(ConnectionKind::Wifi),
            id: Some(ssid.clone()),
            interface_name: Some(ifname.clone()),
            autoconnect: true,
            master: MasterFilter::Unset,
            slave_type: None,
            bond: None,
            wifi: Some(
                WifiSettings {
                    mode: Some(WifiMode::Infrastructure),
                    ssid: Some(ssid.clone()),
                    psk,
                },
            ),
            ip4: Some(ip4),
        },
    )
}

/// The access-point options carrying the same raw fields, used to search for
/// the opposite wireless role on the same radio.
pub open spec fn sta_to_ap_view(o: StationOptsView) -> AccessPointOptsView {
    AccessPointOptsView {
        wireless_ifname: o.wireless_ifname,
        ssid: o.ssid,
        password: o.password,
        ip4_addr: o.ip4_addr,
    }
}

/// What validating station-creation options yields before any backend call:
/// the wireless interface and the SSID are required, and the profile must
/// build.
pub open spec fn spec_create_station_new(o: StationOptsView) -> Result<ProfileView, NmError> {
    if o.wireless_ifname is None {
        Err(NmError::MissingWirelessInterface)
    } else if o.ssid is None {
        Err(NmError::MissingSsid)
    } else {
        spec_create_sta_connection(o)
    }
}

/// Where a station creation stands, and which answer it waits for.
#[derive(Clone, Copy, Debug, PartialEq, Eq, Structural)]
pub enum CreateStationPhase {
    /// Checking that no matching station connection exists yet.
    AwaitConnections,
    /// Looking for an active station connection occupying the radio.
    AwaitStaActives,
    /// Waiting for that station connection to go down.
    AwaitStaDeactivated,
    /// Looking for an active access-point connection occupying the radio.
    AwaitApActives,
    /// Waiting for that access point to go down.
    AwaitApDeactivated,
    /// Checking that the wireless device exists.
    AwaitDevice,
    /// Waiting for the station connection to be stored.
    AwaitAdded,
    /// Waiting for the activation to be issued.
    AwaitActivated,
    /// Watching state-change notifications until a terminal state.
    AwaitStateChange,
    /// The creation has finished, one way or the other.
    Done,
}

/// The event shape each phase of a station creation consumes.
pub open spec fn create_station_wants(phase: CreateStationPhase) -> EventTag {
    match phase {
        CreateStationPhase::AwaitConnections => EventTag::Connections,
        CreateStationPhase::AwaitStaActives => EventTag::ActiveConnections,
        CreateStationPhase::AwaitStaDeactivated => EventTag::Deactivated,
        CreateStationPhase::AwaitApActives => EventTag::ActiveConnections,
        CreateStationPhase::AwaitApDeactivated => EventTag::Deactivated,
        CreateStationPhase::AwaitDevice => EventTag::Device,
        CreateStationPhase::AwaitAdded => EventTag::Added,
        CreateStationPhase::AwaitActivated => EventTag::Activated,
        CreateStationPhase::AwaitStateChange => EventTag::StateChanged,
        CreateStationPhase::Done => EventTag::Connections,
    }
}

/// How far a station creation still has to go.
pub open spec fn create_station_rank(m: CreateStation) -> int {
    match m.phase {
        CreateStationPhase::Done => 0,
        CreateStationPhase::AwaitStateChange => 1,
        CreateStationPhase::AwaitActivated => 2,
        CreateStationPhase::AwaitAdded => 3,
        CreateStationPhase::AwaitDevice => 4,
        CreateStationPhase::AwaitApDeactivated => 5,
        CreateStationPhase::AwaitApActives => 6,
        CreateStationPhase::AwaitStaDeactivated => 7,
        CreateStationPhase::AwaitStaActives => 8,
        CreateStationPhase::AwaitConnections => 9,
    }
}

/// The state machine of one station creation: refuse to overwrite an
/// existing matching station connection, then deactivate whatever wireless
/// role occupies the radio and add a fresh connection.
#[derive(Debug)]
pub struct CreateStation {
    /// The station profile, both search template and submission.
    pub profile: ConnectionProfile,
    /// The access-point search template used to find and preempt the
    /// opposite wireless role on the same radio.
    pub ap_profile: ConnectionProfile,
    pub wireless_ifname: String,
    pub phase: CreateStationPhase,
}

impl CreateStation {
    /// The machine's structural invariant.
    pub open spec fn wf(&self) -> bool {
        &&& self.profile@.kind == Some(ConnectionKind::Wifi)
        &&& self.profile@.id is Some
        &&& self.profile@.interface_name == Some(self.wireless_ifname@)
    }

    /// Validates the options and builds the machine together with its first
    /// request, without any backend interaction.
    pub fn new(opts: &StationOpts) -> (r: Result<(CreateStation, BackendOp), NmError>)
        ensures
            match spec_create_station_new(opts@) {
                Err(e) => r == Err::<(CreateStation, BackendOp), NmError>(e),
                Ok(p) => r matches Ok(pair) && pair.0.wf() && pair.0.profile@ == p
                    && pair.0.wireless_ifname@ == opts@.wireless_ifname.unwrap() && (
                spec_create_access_point_connection(sta_to_ap_view(opts@)) matches Ok(q)
                    && pair.0.ap_profile@ == crate::connection::spec_any_ssid(q)) && pair.0.phase
                    == CreateStationPhase::AwaitConnections && pair.1
                    == BackendOp::ListConnections,
            },
    {
        let wireless_ifname = match &opts.wireless_ifname {
            Some(ifname) => ifname.clone(),
            None => {
                return Err(NmError::MissingWirelessInterface);
            },
        };
        if opts.ssid.is_none() {
            return Err(NmError::MissingSsid);
        }
        let profile = match create_sta_connection(opts) {
            Ok(p) => p,
            Err(e) => {
                return Err(e);
            },
        };
        let ap_opts = opts.to_access_point_opts();
        let mut ap_profile = match create_access_point_connection(&ap_opts) {
            Ok(p) => p,
            Err(e) => {
                return Err(e);
            },
        };
        // preempt whichever access point occupies the radio, whatever its SSID
        crate::connection::clear_ssid(&mut ap_profile);
        Ok(
            (
                CreateStation {
                    profile,
                    ap_profile,
                    wireless_ifname,
                    phase: CreateStationPhase::AwaitConnections,
                },
                BackendOp::ListConnections,
            ),
        )
    }

    /// Consumes one backend answer and produces the next request.
    ///
    /// The transitions mirror the creation sequence: refuse to overwrite an
    /// existing matching station connection; deactivate an active station
    /// and an active access point occupying the radio, in that order;
    /// require the wireless device to exist; add and activate the
    /// station; succeed at once when it comes up activated, otherwise watch
    /// its state until a terminal one.
    pub fn step(self, event: BackendEvent) -> (r: (CreateStation, BackendOp))
        requires
            self.wf(),
            self.phase != CreateStationPhase::Done,
            event_tag(event) == create_station_wants(self.phase),
        ensures
            r.0.wf(),
            r.0.profile@ == self.profile@,
            r.0.ap_profile@ == self.ap_profile@,
            r.0.wireless_ifname@ == self.wireless_ifname@,
            (r.1 matches BackendOp::Finish(_)) <==> r.0.phase == CreateStationPhase::Done,
            op_event_tag(r.1) matches Some(t) ==> t == create_station_wants(r.0.phase),
            !(r.1 matches BackendOp::Finish(_)) ==> create_station_rank(r.0) < create_station_rank(
                self,
            ) || (self.phase == CreateStationPhase::AwaitStateChange && r.0.phase
                == CreateStationPhase::AwaitStateChange),
            ({
                match (self.phase, event) {
                    (CreateStationPhase::AwaitConnections, BackendEvent::Connections(conns)) => {
                        if crate::connection::spec_get_connection(
                            ConnectionKind::Wifi,
                            self.profile@,
                            conns@,
                        ) is Some {
                            r.1 == BackendOp::Finish(Err::<(), NmError>(NmError::AlreadyExists))
                        } else {
                            r.0.phase == CreateStationPhase::AwaitStaActives && r.1
                                == BackendOp::ListActiveConnections
                        }
                    },
                    (
                        CreateStationPhase::AwaitStaActives,
                        BackendEvent::ActiveConnections(actives),
                    ) => {
                        match spec_get_active_connection(
                            ConnectionKind::Wifi,
                            self.profile@,
                            actives@,
                        ) {
                            Some(j) => r.0.phase == CreateStationPhase::AwaitStaDeactivated && r.1
                                == BackendOp::DeactivateConnection(actives@[j].handle),
                            None => r.0.phase == CreateStationPhase::AwaitApActives && r.1
                                == BackendOp::ListActiveConnections,
                        }
                    },
                    (CreateStationPhase::AwaitStaDeactivated, BackendEvent::Deactivated(ok)) => {
                        if !ok {
                            r.1 == BackendOp::Finish(
                                Err::<(), NmError>(NmError::BackendOperationFailed),
                            )
                        } else {
                            r.0.phase == CreateStationPhase::AwaitApActives && r.1
                                == BackendOp::ListActiveConnections
                        }
                    },
                    (
                        CreateStationPhase::AwaitApActives,
                        BackendEvent::ActiveConnections(actives),
                    ) => {
                        match spec_get_active_connection(
                            ConnectionKind::Wifi,
                            self.ap_profile@,
                            actives@,
                        ) {
                            Some(j) => r.0.phase == CreateStationPhase::AwaitApDeactivated && r.1
                                == BackendOp::DeactivateConnection(actives@[j].handle),
                            None => r.0.phase == CreateStationPhase::AwaitDevice && (
                            r.1 matches BackendOp::GetDevice(name) && name@
                                == self.wireless_ifname@),
                        }
                    },
                    (CreateStationPhase::AwaitApDeactivated, BackendEvent::Deactivated(ok)) => {
                        if !ok {
                            r.1 == BackendOp::Finish(
                                Err::<(), NmError>(NmError::BackendOperationFailed),
                            )
                        } else {
                            r.0.phase == CreateStationPhase::AwaitDevice && (
                            r.1 matches BackendOp::GetDevice(name) && name@
                                == self.wireless_ifname@)
                        }
                    },
                    (CreateStationPhase::AwaitDevice, BackendEvent::Device(found)) => {
                        if !found {
                            r.1 == BackendOp::Finish(Err::<(), NmError>(NmError::DeviceNotFound))
                        } else {
                            r.0.phase == CreateStationPhase::AwaitAdded && (
                            r.1 matches BackendOp::AddConnection(p) && p@ == self.profile@)
                        }
                    },
                    (CreateStationPhase::AwaitAdded, BackendEvent::Added(res)) => {
                        match res {
                            None => r.1 == BackendOp::Finish(
                                Err::<(), NmError>(NmError::BackendOperationFailed),
                            ),
                            Some(sc) => r.0.phase == CreateStationPhase::AwaitActivated && (
                            r.1 matches BackendOp::ActivateConnection { connection, device }
                                && connection == sc@.handle && device@ == self.wireless_ifname@),
                        }
                    },
                    (CreateStationPhase::AwaitActivated, BackendEvent::Activated(res)) => {
                        match res {
                            None => r.1 == BackendOp::Finish(
                                Err::<(), NmError>(NmError::BackendOperationFailed),
                            ),
                            Some(a) => {
                                if a@.state == ActivationState::Activated {
                                    r.1 == BackendOp::Finish(Ok::<(), NmError>(()))
                                } else {
                                    r.0.phase == CreateStationPhase::AwaitStateChange && r.1
                                        == BackendOp::Subscribe(a@.handle)
                                }
                            },
                        }
                    },
                    (CreateStationPhase::AwaitStateChange, BackendEvent::StateChanged(st)) => {
                        match crate::connection::spec_activation_step(st) {
                            None => r.0.phase == CreateStationPhase::AwaitStateChange && r.1
                                == BackendOp::AwaitState,
                            Some(res) => r.1 == BackendOp::Finish(res),
                        }
                    },
                    _ => true,
                }
            }),
    {
        match (self.phase, event) {
            (CreateStationPhase::AwaitConnections, BackendEvent::Connections(conns)) => {
                if crate::connection::get_connection(
                    ConnectionKind::Wifi,
                    &self.profile,
                    &conns,
                ).is_some() {
                    (
                        CreateStation { phase: CreateStationPhase::Done, ..self },
                        BackendOp::Finish(Err(NmError::AlreadyExists)),
                    )
                } else {
                    (
                        CreateStation { phase: CreateStationPhase::AwaitStaActives, ..self },
                        BackendOp::ListActiveConnections,
                    )
                }
            },
            (CreateStationPhase::AwaitStaActives, BackendEvent::ActiveConnections(actives)) => {
                match get_active_connection(ConnectionKind::Wifi, &self.profile, &actives) {
                    Some(j) => {
                        let handle = actives[j].handle;
                        (
                            CreateStation {
                                phase: CreateStationPhase::AwaitStaDeactivated,
                                ..self
                            },
                            BackendOp::DeactivateConnection(handle),
                        )
                    },
                    None => (
                        CreateStation { phase: CreateStationPhase::AwaitApActives, ..self },
                        BackendOp::ListActiveConnections,
                    ),
                }
            },
            (CreateStationPhase::AwaitStaDeactivated, BackendEvent::Deactivated(ok)) => {
                if !ok {
                    (
                        CreateStation { phase: CreateStationPhase::Done, ..self },
                        BackendOp::Finish(Err(NmError::BackendOperationFailed)),
                    )
                } else {
                    (
                        CreateStation { phase: CreateStationPhase::AwaitApActives, ..self },
                        BackendOp::ListActiveConnections,
                    )
                }
            },
            (CreateStationPhase::AwaitApActives, BackendEvent::ActiveConnections(actives)) => {
                match get_active_connection(ConnectionKind::Wifi, &self.ap_profile, &actives) {
                    Some(j) => {
                        let handle = actives[j].handle;
                        (
                            CreateStation { phase: CreateStationPhase::AwaitApDeactivated, ..self },
                            BackendOp::DeactivateConnection(handle),
                        )
                    },
                    None => {
                        let name = self.wireless_ifname.clone();
                        (
                            CreateStation { phase: CreateStationPhase::AwaitDevice, ..self },
                            BackendOp::GetDevice(name),
                        )
                    },
                }
            },
            (CreateStationPhase::AwaitApDeactivated, BackendEvent::Deactivated(ok)) => {
                if !ok {
                    (
                        CreateStation { phase: CreateStationPhase::Done, ..self },
                        BackendOp::Finish(Err(NmError::BackendOperationFailed)),
                    )
                } else {
                    let name = self.wireless_ifname.clone();
                    (
                        CreateStation { phase: CreateStationPhase::AwaitDevice, ..self },
                        BackendOp::GetDevice(name),
                    )
                }
            },
            (CreateStationPhase::AwaitDevice, BackendEvent::Device(found)) => {
                if !found {
                    (
                        CreateStation { phase: CreateStationPhase::Done, ..self },
                        BackendOp::Finish(Err(NmError::DeviceNotFound)),
                    )
                } else {
                    let p = self.profile.clone();
                    (
                        CreateStation { phase: CreateStationPhase::AwaitAdded, ..self },
                        BackendOp::AddConnection(p),
                    )
                }
            },
            (CreateStationPhase::AwaitAdded, BackendEvent::Added(res)) => {
                match res {
                    None => (
                        CreateStation { phase: CreateStationPhase::Done, ..self },
                        BackendOp::Finish(Err(NmError::BackendOperationFailed)),
                    ),
                    Some(sc) => {
                        let device = self.wireless_ifname.clone();
                        (
                            CreateStation { phase: CreateStationPhase::AwaitActivated, ..self },
                            BackendOp::ActivateConnection { connection: sc.handle, device },
                        )
                    },
                }
            },
            (CreateStationPhase::AwaitActivated, BackendEvent::Activated(res)) => {
                match res {
                    None => (
                        CreateStation { phase: CreateStationPhase::Done, ..self },
                        BackendOp::Finish(Err(NmError::BackendOperationFailed)),
                    ),
                    Some(a) => {
                        if a.state == ActivationState::Activated {
                            (
                                CreateStation { phase: CreateStationPhase::Done, ..self },
                                BackendOp::Finish(Ok(())),
                            )
                        } else {
                            let handle = a.handle;
                            (
                                CreateStation {
                                    phase: CreateStationPhase::AwaitStateChange,
                                    ..self
                                },
                                BackendOp::Subscribe(handle),
                            )
                        }
                    },
                }
            },
            (CreateStationPhase::AwaitStateChange, BackendEvent::StateChanged(st)) => {
                match crate::connection::activation_step(st) {
                    None => (
                        CreateStation { phase: CreateStationPhase::AwaitStateChange, ..self },
                        BackendOp::AwaitState,
                    ),
                    Some(res) => (
                        CreateStation { phase: CreateStationPhase::Done, ..self },
                        BackendOp::Finish(res),
                    ),
                }
            },
            _ => {
                proof {
                    assert(false);
                }
                (
                    CreateStation { phase: CreateStationPhase::Done, ..self },
                    BackendOp::Finish(Err(NmError::BackendOperationFailed)),
                )
            },
        }
    }
}

// Runs a station creation to completion against a backend. Validation
// failures surface before anything is asked of the backend; an already
// existing matching station connection fails the creation with a conflict
// instead of overwriting it; active wireless occupants of the radio — a
// station first, then an access point — are deactivated before the station
// is added and activated; and the result follows the state the activation
// settles in. The backend's notifications must decide each activation; one
// that reports "activating" forever would stall the caller without end.
#[verifier::rlimit(100)]
pub fn create_station(client: &mut BackendModel, opts: &StationOpts) -> (r: Result<(), NmError>)
    requires
        crate::connection::spec_activation_step(old(client).notified_state) is Some,
    ensures
        spec_create_station_new(opts@) matches Err(e) ==> r == Err::<(), NmError>(e)
            && crate::model::model_unchanged(old(client), final(client)),
        (spec_create_station_new(opts@) matches Ok(p)
            && crate::connection::spec_get_connection(
            ConnectionKind::Wifi,
            p,
            old(client).connections@,
        ) is Some) ==> r == Err::<(), NmError>(NmError::AlreadyExists)
            && crate::model::model_unchanged(old(client), final(client)),
        ({
            match (
                spec_create_station_new(opts@),
                spec_create_access_point_connection(sta_to_ap_view(opts@)),
            ) {
                (Ok(p), Ok(q)) => spec_get_active_connection(
                    ConnectionKind::Wifi,
                    p,
                    old(client).active@,
                ) is None ==> crate::access_point::spec_wifi_creation_outcome(
                    old(client),
                    final(client),
                    p,
                    crate::connection::spec_any_ssid(q),
                    opts@.wireless_ifname.unwrap(),
                    crate::model::WaitPolicy::SettleFirst,
                    r,
                ),
                _ => true,
            }
        }),
{
    let (m, _) = match CreateStation::new(opts) {
        Ok(pair) => pair,
        Err(e) => {
            return Err(e);
        },
    };
    let CreateStation { profile, ap_profile, wireless_ifname, phase: _ } = m;
    if crate::connection::get_connection(
        ConnectionKind::Wifi,
        &profile,
        &client.connections,
    ).is_some() {
        return Err(NmError::AlreadyExists);
    }
    // deactivate whichever station already occupies the radio
    crate::access_point::preempt_peer(client, &profile);
    let r = crate::access_point::run_wifi_creation(
        client,
        profile,
        ap_profile,
        wireless_ifname,
        crate::model::WaitPolicy::SettleFirst,
    );
    r
}

} // verus!