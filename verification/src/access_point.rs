use vstd::prelude::*;
use vstd::string::*;

use crate::cli::AccessPointArgs;
use crate::connection::{
    get_active_connection, get_connection, opt_str_view, spec_get_active_connection,
    spec_get_connection, ActivationState, ConnectionKind, ConnectionProfile, Ip4Method,
    Ip4Settings, MasterFilter, MasterFilterView, ProfileView, WifiMode, WifiSettings,
    WifiSettingsView,
};
use crate::error::NmError;
use crate::ip4::{parse_ipv4_cidr, spec_parse_cidr};
use crate::model::{
    event_tag, op_event_tag, BackendEvent, BackendModel, BackendOp, EventTag,
};
use crate::util::{
    normalize_optional, spec_default_ip4_addr, spec_normalized, spec_validate_password,
    validate_password,
};

verus! {

/// Validated options of an access-point invocation.
#[derive(Debug)]
pub struct AccessPointOpts {
    /// The radio the access point is served on.
    pub wireless_ifname: Option<String>,
    /// The network name the access point announces.
    pub ssid: Option<String>,
    /// WPA pre-shared key, already validated; unset means an open network.
    pub password: Option<String>,
    /// Static IPv4 address in `a.b.c.d/len` form; unset picks the fixed
    /// private-use default.
    pub ip4_addr: Option<String>,
}

/// Mathematical value of [`AccessPointOpts`].
pub struct AccessPointOptsView {
    pub wireless_ifname: Option<Seq<char>>,
    pub ssid: Option<Seq<char>>,
    pub password: Option<Seq<char>>,
    pub ip4_addr: Option<Seq<char>>,
}

impl View for AccessPointOpts {
    type V = AccessPointOptsView;

    open spec fn view(&self) -> AccessPointOptsView {
        AccessPointOptsView {
            wireless_ifname: opt_str_view(self.wireless_ifname),
            ssid: opt_str_view(self.ssid),
            password: opt_str_view(self.password),
            ip4_addr: opt_str_view(self.ip4_addr),
        }
    }
}

/// What validating raw wireless fields yields: optional strings normalize,
/// and a given password must pass [`spec_validate_password`].
pub open spec fn spec_wireless_opts_from_fields(
    wireless_ifname: Option<Seq<char>>,
    ssid: Option<Seq<char>>,
    password: Option<Seq<char>>,
    backend_psk_valid: bool,
    ip4_addr: Option<Seq<char>>,
) -> Result<AccessPointOptsView, NmError> {
    let pw = match password {
        None => Ok(None),
        Some(p) => spec_validate_password(p, backend_psk_valid),
    };
    match pw {
        Err(e) => Err(e),
        Ok(pass) => Ok(
            AccessPointOptsView {
                wireless_ifname: spec_normalized(wireless_ifname),
                ssid: spec_normalized(ssid),
                password: pass,
                ip4_addr: spec_normalized(ip4_addr),
            },
        ),
    }
}

impl AccessPointOpts {
    /// Builds validated options from raw invocation fields. Empty optional
    /// strings count as unset; a non-empty password must be at least eight
    /// characters and pass the backend's own key check, whose verdict the
    /// caller supplies in `backend_psk_valid`.
    pub fn from_args(args: AccessPointArgs, backend_psk_valid: bool) -> (r: Result<
        AccessPointOpts,
        NmError,
    >)
        ensures
            match spec_wireless_opts_from_fields(
                opt_str_view(args.wireless_ifname),
                opt_str_view(args.ssid),
                opt_str_view(args.password),
                backend_psk_valid,
                opt_str_view(args.ip4_addr),
            ) {
                Err(e) => r == Err::<AccessPointOpts, NmError>(e),
                Ok(o) => r matches Ok(opts) && opts@ == o,
            },
    {
        let password = match args.password {
            None => None,
            Some(p) => match validate_password(p.as_str(), backend_psk_valid) {
                Ok(pw) => pw,
                Err(e) => {
                    return Err(e);
                },
            },
        };
        Ok(
            AccessPointOpts {
                wireless_ifname: normalize_optional(args.wireless_ifname),
                ssid: normalize_optional(args.ssid),
                password,
                ip4_addr: normalize_optional(args.ip4_addr),
            },
        )
    }
}

/// The profile [`create_access_point_connection`] builds on success.
pub open spec fn spec_ap_profile(
    ifname: Seq<char>,
    ssid: Seq<char>,
    psk: Option<Seq<char>>,
    ip4: Ip4Settings,
) -> ProfileView {
    ProfileView {
        kind: Some(ConnectionKind::Wifi),
        id: Some(ssid),
        interface_name: Some(ifname),
        autoconnect: false,
        master: MasterFilterView::Unset,
        slave_type: None,
        bond: None,
        wifi: Some(
            WifiSettingsView { mode: Some(WifiMode::AccessPoint), ssid: Some(ssid), psk },
        ),
        ip4: Some(ip4),
    }
}

/// What [`create_access_point_connection`] returns: SSID and wireless
/// interface are required, a given IPv4 address must parse, and without one
/// the fixed private-use default address applies.
pub open spec fn spec_create_access_point_connection(o: AccessPointOptsView) -> Result<
    ProfileView,
    NmError,
> {
    match o.ssid {
        None => Err(NmError::MissingSsid),
        Some(ssid) => match o.wireless_ifname {
            None => Err(NmError::MissingWirelessInterface),
            Some(ifname) => match o.ip4_addr {
                Some(addr) => match spec_parse_cidr(addr) {
                    None => Err(NmError::InvalidIp4Address),
                    Some(c) => Ok(
                        spec_ap_profile(
                            ifname,
                            ssid,
                            o.password,
                            Ip4Settings { method: Ip4Method::Manual, address: Some(c) },
                        ),
                    ),
                },
                None => Ok(
                    spec_ap_profile(
                        ifname,
                        ssid,
                        o.password,
                        Ip4Settings {
                            method: Ip4Method::Manual,
                            address: Some(spec_default_ip4_addr()),
                        },
                    ),
                ),
            },
        },
    }
}

// Builds the declarative access-point connection profile for the given
// options, ready both for submission to the backend and as a search
// template.
pub fn create_access_point_connection(opts: &AccessPointOpts) -> (r: Result<
    ConnectionProfile,
    NmError,
>)
    ensures
        match r {
            Ok(p) => spec_create_access_point_connection(opts@) == Ok::<ProfileView, NmError>(p@)
                && p@.ip4.unwrap().wf(),
            Err(e) => spec_create_access_point_connection(opts@) == Err::<ProfileView, NmError>(e),
        },
{
    let ssid = match &opts.ssid {
        Some(ssid) => ssid,
        None => {
            return Err(NmError::MissingSsid);
        },
    };
    let ifname = match &opts.wireless_ifname {
        Some(ifname) => ifname,
        None => {
            return Err(NmError::MissingWirelessInterface);
        },
    };
    let ip4 = match &opts.ip4_addr {
        Some(addr) => match parse_ipv4_cidr(addr.as_str()) {
            Some(c) => Ip4Settings { method: Ip4Method::Manual, address: Some(c) },
            None => {
                return Err(NmError::InvalidIp4Address);
            },
        },
        None => Ip4Settings {
            method: Ip4Method::Manual,
            address: Some(crate::util::default_ip4_addr()),
        },
    };
    let psk = match &opts.password {
        Some(p) => Some(p.clone()),
        None => None,
    };
    Ok(
        ConnectionProfile {
            kind: Some(ConnectionKind::Wifi),
            id: Some(ssid.clone()),
            interface_name: Some(ifname.clone()),
            autoconnect: false,
            master: MasterFilter::Unset,
            slave_type: None,
            bond: None,
            wifi: Some(
                WifiSettings {
                    mode: Some(WifiMode::AccessPoint),
                    ssid: Some(ssid.clone()),
                    psk,
                },
            ),
            ip4: Some(ip4),
        },
    )
}

/// The station options carrying the same raw fields, used to search for the
/// opposite wireless role on the same radio.
pub open spec fn ap_to_sta_view(o: AccessPointOptsView) -> crate::station::StationOptsView {
    crate::station::StationOptsView {
        wireless_ifname: o.wireless_ifname,
        ssid: o.ssid,
        password: o.password,
        ip4_addr: o.ip4_addr,
    }
}

/// What validating access-point creation options yields before any backend
/// call: the wireless interface and the SSID are required, and the profile
/// must build.
pub open spec fn spec_create_access_point_new(o: AccessPointOptsView) -> Result<
    ProfileView,
    NmError,
> {
    if o.wireless_ifname is None {
        Err(NmError::MissingWirelessInterface)
    } else if o.ssid is None {
        Err(NmError::MissingSsid)
    } else {
        spec_create_access_point_connection(o)
    }
}

/// Where an access-point creation stands, and which answer it waits for.
#[derive(Clone, Copy, Debug, PartialEq, Eq, Structural)]
pub enum CreateApPhase {
    /// Checking that no matching access-point connection exists yet.
    AwaitConnections,
    /// Looking for an active station connection occupying the radio.
    AwaitActives,
    /// Waiting for that station connection to go down.
    AwaitPeerDeactivated,
    /// Checking that the wireless device exists.
    AwaitDevice,
    /// Waiting for the access-point connection to be stored.
    AwaitAdded,
    /// Waiting for the activation to be issued.
    AwaitActivated,
    /// Watching state-change notifications until a terminal state.
    AwaitStateChange,
    /// The creation has finished, one way or the other.
    Done,
}

/// The event shape each phase of an access-point creation consumes.
pub open spec fn create_ap_wants(phase: CreateApPhase) -> EventTag {
    match phase {
        CreateApPhase::AwaitConnections => EventTag::Connections,
        CreateApPhase::AwaitActives => EventTag::ActiveConnections,
        CreateApPhase::AwaitPeerDeactivated => EventTag::Deactivated,
        CreateApPhase::AwaitDevice => EventTag::Device,
        CreateApPhase::AwaitAdded => EventTag::Added,
        CreateApPhase::AwaitActivated => EventTag::Activated,
        CreateApPhase::AwaitStateChange => EventTag::StateChanged,
        CreateApPhase::Done => EventTag::Connections,
    }
}

/// How far an access-point creation still has to go.
pub open spec fn create_ap_rank(m: CreateAccessPoint) -> int {
    match m.phase {
        CreateApPhase::Done => 0,
        CreateApPhase::AwaitStateChange => 1,
        CreateApPhase::AwaitActivated => 2,
        CreateApPhase::AwaitAdded => 3,
        CreateApPhase::AwaitDevice => 4,
        CreateApPhase::AwaitPeerDeactivated => 5,
        CreateApPhase::AwaitActives => 6,
        CreateApPhase::AwaitConnections => 7,
    }
}

/// The state machine of one access-point creation.
#[derive(Debug)]
pub struct CreateAccessPoint {
    /// The access-point profile, both search template and submission.
    pub profile: ConnectionProfile,
    /// The station search template used to find and preempt the opposite
    /// wireless role on the same radio.
    pub sta_profile: ConnectionProfile,
    pub wireless_ifname: String,
    pub phase: CreateApPhase,
}

impl CreateAccessPoint {
    /// The machine's structural invariant.
    pub open spec fn wf(&self) -> bool {
        &&& self.profile@.kind == Some(ConnectionKind::Wifi)
        &&& self.profile@.id is Some
        &&& self.profile@.interface_name == Some(self.wireless_ifname@)
    }

    /// Validates the options and builds the machine together with its first
    /// request, without any backend interaction.
    pub fn new(opts: &AccessPointOpts) -> (r: Result<(CreateAccessPoint, BackendOp), NmError>)
        ensures
            match spec_create_access_point_new(opts@) {
                Err(e) => r == Err::<(CreateAccessPoint, BackendOp), NmError>(e),
                Ok(p) => r matches Ok(pair) && pair.0.wf() && pair.0.profile@ == p
                    && pair.0.wireless_ifname@ == opts@.wireless_ifname.unwrap() && (
                crate::station::spec_create_sta_connection(ap_to_sta_view(opts@)) matches Ok(q)
                    && pair.0.sta_profile@ == crate::connection::spec_any_ssid(q)) && pair.0.phase
                    == CreateApPhase::AwaitConnections && pair.1 == BackendOp::ListConnections,
            },
    {
        let wireless_ifname = match &opts.wireless_ifname {
            Some(ifname) => ifname.clone(),
            None => {
                return Err(NmError::MissingWirelessInterface);
            },
        };
        if opts.ssid.is_none() {
            return Err(NmError::MissingSsid);
        }
        let profile = match create_access_point_connection(opts) {
            Ok(p) => p,
            Err(e) => {
                return Err(e);
            },
        };
        let sta_opts = crate::station::StationOpts::from_access_point_opts(opts);
        let mut sta_profile = match crate::station::create_sta_connection(&sta_opts) {
            Ok(p) => p,
            Err(e) => {
                return Err(e);
            },
        };
        // preempt whichever station occupies the radio, whatever its SSID
        crate::connection::clear_ssid(&mut sta_profile);
        Ok(
            (
                CreateAccessPoint {
                    profile,
                    sta_profile,
                    wireless_ifname,
                    phase: CreateApPhase::AwaitConnections,
                },
                BackendOp::ListConnections,
            ),
        )
    }

    /// Consumes one backend answer and produces the next request.
    ///
    /// The transitions mirror the creation sequence: refuse to overwrite an
    /// existing matching access point; deactivate an active station
    /// occupying the radio; require the wireless device to exist; add and
    /// activate the access point; then watch its state until a terminal one.
    pub fn step(self, event: BackendEvent) -> (r: (CreateAccessPoint, BackendOp))
        requires
            self.wf(),
            self.phase != CreateApPhase::Done,
            event_tag(event) == create_ap_wants(self.phase),
        ensures
            r.0.wf(),
            r.0.profile@ == self.profile@,
            r.0.sta_profile@ == self.sta_profile@,
            r.0.wireless_ifname@ == self.wireless_ifname@,
            (r.1 matches BackendOp::Finish(_)) <==> r.0.phase == CreateApPhase::Done,
            op_event_tag(r.1) matches Some(t) ==> t == create_ap_wants(r.0.phase),
            !(r.1 matches BackendOp::Finish(_)) ==> create_ap_rank(r.0) < create_ap_rank(self) || (
            self.phase == CreateApPhase::AwaitStateChange && r.0.phase
                == CreateApPhase::AwaitStateChange),
            ({
                match (self.phase, event) {
                    (CreateApPhase::AwaitConnections, BackendEvent::Connections(conns)) => {
                        if spec_get_connection(ConnectionKind::Wifi, self.profile@, conns@)
                            is Some {
                            r.1 == BackendOp::Finish(Err::<(), NmError>(NmError::AlreadyExists))
                        } else {
                            r.0.phase == CreateApPhase::AwaitActives && r.1
                                == BackendOp::ListActiveConnections
                        }
                    },
                    (CreateApPhase::AwaitActives, BackendEvent::ActiveConnections(actives)) => {
                        match spec_get_active_connection(
                            ConnectionKind::Wifi,
                            self.sta_profile@,
                            actives@,
                        ) {
                            Some(j) => r.0.phase == CreateApPhase::AwaitPeerDeactivated && r.1
                                == BackendOp::DeactivateConnection(actives@[j].handle),
                            None => r.0.phase == CreateApPhase::AwaitDevice && (
                            r.1 matches BackendOp::GetDevice(name) && name@
                                == self.wireless_ifname@),
                        }
                    },
                    (CreateApPhase::AwaitPeerDeactivated, BackendEvent::Deactivated(ok)) => {
                        if !ok {
                            r.1 == BackendOp::Finish(
                                Err::<(), NmError>(NmError::BackendOperationFailed),
                            )
                        } else {
                            r.0.phase == CreateApPhase::AwaitDevice && (
                            r.1 matches BackendOp::GetDevice(name) && name@
                                == self.wireless_ifname@)
                        }
                    },
                    (CreateApPhase::AwaitDevice, BackendEvent::Device(found)) => {
                        if !found {
                            r.1 == BackendOp::Finish(Err::<(), NmError>(NmError::DeviceNotFound))
                        } else {
                            r.0.phase == CreateApPhase::AwaitAdded && (
                            r.1 matches BackendOp::AddConnection(p) && p@ == self.profile@)
                        }
                    },
                    (CreateApPhase::AwaitAdded, BackendEvent::Added(res)) => {
                        match res {
                            None => r.1 == BackendOp::Finish(
                                Err::<(), NmError>(NmError::BackendOperationFailed),
                            ),
                            Some(sc) => r.0.phase == CreateApPhase::AwaitActivated && (
                            r.1 matches BackendOp::ActivateConnection { connection, device }
                                && connection == sc@.handle && device@ == self.wireless_ifname@),
                        }
                    },
                    (CreateApPhase::AwaitActivated, BackendEvent::Activated(res)) => {
                        match res {
                            None => r.1 == BackendOp::Finish(
                                Err::<(), NmError>(NmError::BackendOperationFailed),
                            ),
                            Some(a) => r.0.phase == CreateApPhase::AwaitStateChange && r.1
                                == BackendOp::Subscribe(a@.handle),
                        }
                    },
                    (CreateApPhase::AwaitStateChange, BackendEvent::StateChanged(st)) => {
                        match crate::connection::spec_activation_step(st) {
                            None => r.0.phase == CreateApPhase::AwaitStateChange && r.1
                                == BackendOp::AwaitState,
                            Some(res) => r.1 == BackendOp::Finish(res),
                        }
                    },
                    _ => true,
                }
            }),
    {
        match (self.phase, event) {
            (CreateApPhase::AwaitConnections, BackendEvent::Connections(conns)) => {
                if get_connection(ConnectionKind::Wifi, &self.profile, &conns).is_some() {
                    (
                        CreateAccessPoint { phase: CreateApPhase::Done, ..self },
                        BackendOp::Finish(Err(NmError::AlreadyExists)),
                    )
                } else {
                    (
                        CreateAccessPoint { phase: CreateApPhase::AwaitActives, ..self },
                        BackendOp::ListActiveConnections,
                    )
                }
            },
            (CreateApPhase::AwaitActives, BackendEvent::ActiveConnections(actives)) => {
                match get_active_connection(ConnectionKind::Wifi, &self.sta_profile, &actives) {
                    Some(j) => {
                        let handle = actives[j].handle;
                        (
                            CreateAccessPoint {
                                phase: CreateApPhase::AwaitPeerDeactivated,
                                ..self
                            },
                            BackendOp::DeactivateConnection(handle),
                        )
                    },
                    None => {
                        let name = self.wireless_ifname.clone();
                        (
                            CreateAccessPoint { phase: CreateApPhase::AwaitDevice, ..self },
                            BackendOp::GetDevice(name),
                        )
                    },
                }
            },
            (CreateApPhase::AwaitPeerDeactivated, BackendEvent::Deactivated(ok)) => {
                if !ok {
                    (
                        CreateAccessPoint { phase: CreateApPhase::Done, ..self },
                        BackendOp::Finish(Err(NmError::BackendOperationFailed)),
                    )
                } else {
                    let name = self.wireless_ifname.clone();
                    (
                        CreateAccessPoint { phase: CreateApPhase::AwaitDevice, ..self },
                        BackendOp::GetDevice(name),
                    )
                }
            },
            (CreateApPhase::AwaitDevice, BackendEvent::Device(found)) => {
                if !found {
                    (
                        CreateAccessPoint { phase: CreateApPhase::Done, ..self },
                        BackendOp::Finish(Err(NmError::DeviceNotFound)),
                    )
                } else {
                    let p = self.profile.clone();
                    (
                        CreateAccessPoint { phase: CreateApPhase::AwaitAdded, ..self },
                        BackendOp::AddConnection(p),
                    )
                }
            },
            (CreateApPhase::AwaitAdded, BackendEvent::Added(res)) => {
                match res {
                    None => (
                        CreateAccessPoint { phase: CreateApPhase::Done, ..self },
                        BackendOp::Finish(Err(NmError::BackendOperationFailed)),
                    ),
                    Some(sc) => {
                        let device = self.wireless_ifname.clone();
                        (
                            CreateAccessPoint { phase: CreateApPhase::AwaitActivated, ..self },
                            BackendOp::ActivateConnection { connection: sc.handle, device },
                        )
                    },
                }
            },
            (CreateApPhase::AwaitActivated, BackendEvent::Activated(res)) => {
                match res {
                    None => (
                        CreateAccessPoint { phase: CreateApPhase::Done, ..self },
                        BackendOp::Finish(Err(NmError::BackendOperationFailed)),
                    ),
                    Some(a) => {
                        let handle = a.handle;
                        (
                            CreateAccessPoint { phase: CreateApPhase::AwaitStateChange, ..self },
                            BackendOp::Subscribe(handle),
                        )
                    },
                }
            },
            (CreateApPhase::AwaitStateChange, BackendEvent::StateChanged(st)) => {
                match crate::connection::activation_step(st) {
                    None => (
                        CreateAccessPoint { phase: CreateApPhase::AwaitStateChange, ..self },
                        BackendOp::AwaitState,
                    ),
                    Some(res) => (
                        CreateAccessPoint { phase: CreateApPhase::Done, ..self },
                        BackendOp::Finish(res),
                    ),
                }
            },
            _ => {
                proof {
                    assert(false);
                }
                (
                    CreateAccessPoint { phase: CreateApPhase::Done, ..self },
                    BackendOp::Finish(Err(NmError::BackendOperationFailed)),
                )
            },
        }
    }
}

// Runs an access-point creation to completion against a backend. Validation
// failures surface before anything is asked of the backend; an already
// existing matching access-point connection fails the creation with a
// conflict instead of overwriting it; an active station occupying the radio
// is deactivated before the access point is added and activated; and the
// result follows the first state the new activation settles in. The
// backend's notifications must decide each activation; one that reports
// "activating" forever would stall the caller without end.
pub fn create_access_point(client: &mut BackendModel, opts: &AccessPointOpts) -> (r: Result<
    (),
    NmError,
>)
    requires
        crate::connection::spec_activation_step(old(client).notified_state) is Some,
    ensures
        spec_create_access_point_new(opts@) matches Err(e) ==> r == Err::<(), NmError>(e)
            && crate::model::model_unchanged(old(client), final(client)),
        (spec_create_access_point_new(opts@) matches Ok(p) && spec_get_connection(
            ConnectionKind::Wifi,
            p,
            old(client).connections@,
        ) is Some) ==> r == Err::<(), NmError>(NmError::AlreadyExists)
            && crate::model::model_unchanged(old(client), final(client)),
        ({
            match (
                spec_create_access_point_new(opts@),
                crate::station::spec_create_sta_connection(ap_to_sta_view(opts@)),
            ) {
                (Ok(p), Ok(q)) => spec_wifi_creation_outcome(
                    old(client),
                    final(client),
                    p,
                    crate::connection::spec_any_ssid(q),
                    opts@.wireless_ifname.unwrap(),
                    crate::model::WaitPolicy::Always,
                    r,
                ),
                _ => true,
            }
        }),
{
    let (m, _) = match CreateAccessPoint::new(opts) {
        Ok(pair) => pair,
        Err(e) => {
            return Err(e);
        },
    };
    let CreateAccessPoint { profile, sta_profile, wireless_ifname, phase: _ } = m;
    run_wifi_creation(client, profile, sta_profile, wireless_ifname, crate::model::WaitPolicy::Always)
}

/// What creating a wireless connection settles to when the radio is clear to
/// take it: the profile is stored under a fresh handle with exactly one
/// activation, an active occupant matching the peer template was deactivated
/// first, and the result follows the activation's state under the wait
/// policy.
pub open spec fn spec_wifi_creation_outcome(
    pre: &BackendModel,
    post: &BackendModel,
    p: ProfileView,
    peer: ProfileView,
    ifname: Seq<char>,
    wait: crate::model::WaitPolicy,
    r: Result<(), NmError>,
) -> bool {
    let stored = crate::connection::StoredConnectionView { handle: pre.next_handle, profile: p };
    let fresh = crate::connection::ActiveConnectionView {
        handle: (pre.next_handle + 1) as u64,
        connection: stored,
        state: pre.new_active_state,
        ip4_addresses: Seq::empty(),
    };
    (spec_get_connection(ConnectionKind::Wifi, p, pre.connections@) is None
        && crate::util::str_seq_view(pre.devices@).contains(ifname)
        && crate::model::spec_handles_ok(pre) && pre.next_handle <= u64::MAX - 2) ==> {
        &&& r == (match wait {
            crate::model::WaitPolicy::Never => Ok::<(), NmError>(()),
            crate::model::WaitPolicy::SettleFirst => if pre.new_active_state
                == ActivationState::Activated {
                Ok::<(), NmError>(())
            } else {
                crate::connection::spec_activation_step(pre.notified_state).unwrap()
            },
            crate::model::WaitPolicy::Always => crate::connection::spec_activation_step(
                pre.notified_state,
            ).unwrap(),
        })
        &&& crate::model::stored_list_view(post.connections@) == crate::model::stored_list_view(
            pre.connections@,
        ).push(stored)
        &&& match spec_get_active_connection(ConnectionKind::Wifi, peer, pre.active@) {
            None => crate::model::active_list_view(post.active@) == crate::model::active_list_view(
                pre.active@,
            ).push(fresh),
            Some(j) => {
                let hj = pre.active@[j]@.handle;
                let mif = pre.active@[j]@.connection.profile.interface_name;
                crate::model::active_list_view(post.active@) == crate::model::active_list_view(
                    pre.active@,
                ).filter(
                    |a: crate::connection::ActiveConnectionView|
                        a.handle != hj && !crate::model::spec_enslaved_to(a, mif),
                ).push(fresh)
            },
        }
        &&& post.next_handle == pre.next_handle + 2
        &&& post.devices@ == pre.devices@
        &&& post.new_active_state == pre.new_active_state
        &&& post.notified_state == pre.notified_state
    }
}

/// Deactivates the active connection matching the peer template, when one
/// occupies the radio, leaving everything else in place.
#[verifier::rlimit(100)]
pub(crate) fn preempt_peer(client: &mut BackendModel, sta_profile: &ConnectionProfile)
    ensures
        final(client).connections@ == old(client).connections@,
        final(client).devices@ == old(client).devices@,
        final(client).next_handle == old(client).next_handle,
        final(client).new_active_state == old(client).new_active_state,
        final(client).notified_state == old(client).notified_state,
        crate::model::spec_handles_ok(old(client)) ==> ({
            match spec_get_active_connection(ConnectionKind::Wifi, sta_profile@, old(
                client,
            ).active@) {
                None => final(client).active@ == old(client).active@,
                Some(j) => {
                    let hj = old(client).active@[j]@.handle;
                    let mif = old(client).active@[j]@.connection.profile.interface_name;
                    &&& crate::model::active_list_view(final(client).active@)
                        == crate::model::active_list_view(old(client).active@).filter(
                        |a: crate::connection::ActiveConnectionView|
                            a.handle != hj && !crate::model::spec_enslaved_to(a, mif),
                    )
                    &&& forall|x: int|
                        0 <= x < final(client).active@.len() ==> (
                        #[trigger] final(client).active@[x]@).connection.handle < old(
                            client,
                        ).next_handle
                },
            }
        }),
{
    let ghost prem = crate::model::spec_handles_ok(old(client));
    match get_active_connection(ConnectionKind::Wifi, sta_profile, &client.active) {
        Some(j) => {
            let active_handle = client.active[j].handle;
            proof {
                crate::model::lemma_find_active_by_handle_props(
                    old(client).active@,
                    active_handle,
                    0,
                );
                if prem {
                    assert(old(client).active@[j as int]@.handle == active_handle);
                    match crate::model::spec_find_active_by_handle(
                        old(client).active@,
                        active_handle,
                        0,
                    ) {
                        Some(jj) => {
                            if jj < j as int {
                                assert(old(client).active@[jj]@.handle == old(
                                    client,
                                ).active@[j as int]@.handle);
                            }
                            assert(jj == j as int);
                        },
                        None => {
                            assert(false);
                        },
                    }
                }
            }
            let _ = client.answer(&BackendOp::DeactivateConnection(active_handle));
            proof {
                if prem {
                    let hj = old(client).active@[j as int]@.handle;
                    let mif = old(client).active@[j as int]@.connection.profile.interface_name;
                    let pred = |a: crate::connection::ActiveConnectionView|
                        a.handle != hj && !crate::model::spec_enslaved_to(a, mif);
                    assert(crate::model::active_list_view(client.active@)
                        == crate::model::active_list_view(old(client).active@).filter(pred));
                    crate::model::lemma_active_filter_members(
                        old(client).active@,
                        client.active@,
                        pred,
                    );
                    crate::model::lemma_members_keep_bounds(
                        old(client).active@,
                        client.active@,
                        old(client).next_handle,
                    );
                }
            }
        },
        None => {},
    }
}

/// Carries one wireless creation out against the backend, from the already
/// validated profile, the search template for the radio's other role, and
/// the wireless interface name.
#[verifier::rlimit(100)]
pub(crate) fn run_wifi_creation(
    client: &mut BackendModel,
    profile: ConnectionProfile,
    sta_profile: ConnectionProfile,
    wireless_ifname: String,
    wait: crate::model::WaitPolicy,
) -> (r: Result<(), NmError>)
    requires
        crate::connection::spec_activation_step(old(client).notified_state) is Some,
    ensures
        spec_get_connection(ConnectionKind::Wifi, profile@, old(client).connections@)
            is Some ==> r == Err::<(), NmError>(NmError::AlreadyExists)
            && crate::model::model_unchanged(old(client), final(client)),
        spec_wifi_creation_outcome(
            old(client),
            final(client),
            profile@,
            sta_profile@,
            wireless_ifname@,
            wait,
            r,
        ),
{
    if get_connection(ConnectionKind::Wifi, &profile, &client.connections).is_some() {
        return Err(NmError::AlreadyExists);
    }
    let ghost prem = crate::model::spec_handles_ok(old(client)) && old(client).next_handle
        <= u64::MAX - 2;
    preempt_peer(client, &sta_profile);
    // the wireless device must exist
    if !crate::util::contains_string(&client.devices, &wireless_ifname) {
        return Err(NmError::DeviceNotFound);
    }
    proof {
        if prem {
            match spec_get_active_connection(
                ConnectionKind::Wifi,
                sta_profile@,
                old(client).active@,
            ) {
                None => {
                    assert forall|x: int| 0 <= x < client.active@.len() implies (
                    #[trigger] client.active@[x]@).connection.handle < client.next_handle by {
                        assert(client.active@[x]@ == old(client).active@[x]@);
                        assert(old(client).active@[x]@.handle < old(client).next_handle);
                        assert(old(client).active@[x]@.connection.handle < old(
                            client,
                        ).next_handle);
                    }
                },
                Some(_) => {},
            }
            assert(crate::model::spec_room_for_two(client));
        }
    }
    let r = crate::model::add_activate_and_wait(client, profile, wireless_ifname, wait);
    proof {
        if prem {
            assert(crate::model::stored_list_view(final(client).connections@)
                =~= crate::model::stored_list_view(old(client).connections@).push(
                crate::connection::StoredConnectionView {
                    handle: old(client).next_handle,
                    profile: profile@,
                },
            ));
        }
    }
    r
}

/// What validating access-point deletion options yields before any backend
/// call.
pub open spec fn spec_delete_access_point_new(o: AccessPointOptsView) -> Result<
    ProfileView,
    NmError,
> {
    spec_create_access_point_new(o)
}

/// Where an access-point deletion stands, and which answer it waits for.
#[derive(Clone, Copy, Debug, PartialEq, Eq, Structural)]
pub enum DeleteApPhase {
    /// Looking the access-point connection up; it must exist.
    AwaitConnections,
    /// Looking for its active connection.
    AwaitActives { handle: u64 },
    /// Waiting for it to go down.
    AwaitDeactivated { handle: u64 },
    /// Waiting for the stored connection to disappear.
    AwaitDeleted,
    /// The deletion has finished, one way or the other.
    Done,
}

/// The event shape each phase of an access-point deletion consumes.
pub open spec fn delete_ap_wants(phase: DeleteApPhase) -> EventTag {
    match phase {
        DeleteApPhase::AwaitConnections => EventTag::Connections,
        DeleteApPhase::AwaitActives { .. } => EventTag::ActiveConnections,
        DeleteApPhase::AwaitDeactivated { .. } => EventTag::Deactivated,
        DeleteApPhase::AwaitDeleted => EventTag::Deleted,
        DeleteApPhase::Done => EventTag::Connections,
    }
}

/// How far an access-point deletion still has to go.
pub open spec fn delete_ap_rank(m: DeleteAccessPoint) -> int {
    match m.phase {
        DeleteApPhase::Done => 0,
        DeleteApPhase::AwaitDeleted => 1,
        DeleteApPhase::AwaitDeactivated { .. } => 2,
        DeleteApPhase::AwaitActives { .. } => 3,
        DeleteApPhase::AwaitConnections => 4,
    }
}

/// The state machine of one access-point deletion.
#[derive(Debug)]
pub struct DeleteAccessPoint {
    /// The access-point profile used as the search template.
    pub profile: ConnectionProfile,
    pub phase: DeleteApPhase,
}

impl DeleteAccessPoint {
    /// The machine's structural invariant.
    pub open spec fn wf(&self) -> bool {
        &&& self.profile@.kind == Some(ConnectionKind::Wifi)
        &&& self.profile@.id is Some
        &&& self.profile@.interface_name is Some
    }

    /// Validates the options and builds the machine together with its first
    /// request, without any backend interaction.
    pub fn new(opts: &AccessPointOpts) -> (r: Result<(DeleteAccessPoint, BackendOp), NmError>)
        ensures
            match spec_delete_access_point_new(opts@) {
                Err(e) => r == Err::<(DeleteAccessPoint, BackendOp), NmError>(e),
                Ok(p) => r matches Ok(pair) && pair.0.wf() && pair.0.profile@ == p && pair.0.phase
                    == DeleteApPhase::AwaitConnections && pair.1 == BackendOp::ListConnections,
            },
    {
        if opts.wireless_ifname.is_none() {
            return Err(NmError::MissingWirelessInterface);
        }
        if opts.ssid.is_none() {
            return Err(NmError::MissingSsid);
        }
        let profile = match create_access_point_connection(opts) {
            Ok(p) => p,
            Err(e) => {
                return Err(e);
            },
        };
        Ok(
            (
                DeleteAccessPoint { profile, phase: DeleteApPhase::AwaitConnections },
                BackendOp::ListConnections,
            ),
        )
    }

    /// Consumes one backend answer and produces the next request: the
    /// access-point connection must exist, is deactivated when active, and
    /// is then deleted.
    pub fn step(self, event: BackendEvent) -> (r: (DeleteAccessPoint, BackendOp))
        requires
            self.wf(),
            !(self.phase matches DeleteApPhase::Done),
            event_tag(event) == delete_ap_wants(self.phase),
        ensures
            r.0.wf(),
            r.0.profile@ == self.profile@,
            (r.1 matches BackendOp::Finish(_)) <==> (r.0.phase matches DeleteApPhase::Done),
            op_event_tag(r.1) matches Some(t) ==> t == delete_ap_wants(r.0.phase),
            !(r.1 matches BackendOp::Finish(_)) ==> delete_ap_rank(r.0) < delete_ap_rank(self),
            ({
                match (self.phase, event) {
                    (DeleteApPhase::AwaitConnections, BackendEvent::Connections(conns)) => {
                        match spec_get_connection(ConnectionKind::Wifi, self.profile@, conns@) {
                            None => r.1 == BackendOp::Finish(Err::<(), NmError>(NmError::NotFound)),
                            Some(i) => r.0.phase == (DeleteApPhase::AwaitActives {
                                handle: conns@[i].handle,
                            }) && r.1 == BackendOp::ListActiveConnections,
                        }
                    },
                    (
                        DeleteApPhase::AwaitActives { handle },
                        BackendEvent::ActiveConnections(actives),
                    ) => {
                        match spec_get_active_connection(
                            ConnectionKind::Wifi,
                            self.profile@,
                            actives@,
                        ) {
                            Some(j) => r.0.phase == (DeleteApPhase::AwaitDeactivated { handle })
                                && r.1 == BackendOp::DeactivateConnection(actives@[j].handle),
                            None => r.0.phase == DeleteApPhase::AwaitDeleted && r.1
                                == BackendOp::DeleteConnection(handle),
                        }
                    },
                    (DeleteApPhase::AwaitDeactivated { handle }, BackendEvent::Deactivated(ok)) => {
                        if !ok {
                            r.1 == BackendOp::Finish(
                                Err::<(), NmError>(NmError::BackendOperationFailed),
                            )
                        } else {
                            r.0.phase == DeleteApPhase::AwaitDeleted && r.1
                                == BackendOp::DeleteConnection(handle)
                        }
                    },
                    (DeleteApPhase::AwaitDeleted, BackendEvent::Deleted(ok)) => {
                        if !ok {
                            r.1 == BackendOp::Finish(
                                Err::<(), NmError>(NmError::BackendOperationFailed),
                            )
                        } else {
                            r.1 == BackendOp::Finish(Ok::<(), NmError>(()))
                        }
                    },
                    _ => true,
                }
            }),
    {
        match (self.phase, event) {
            (DeleteApPhase::AwaitConnections, BackendEvent::Connections(conns)) => {
                match get_connection(ConnectionKind::Wifi, &self.profile, &conns) {
                    None => (
                        DeleteAccessPoint { phase: DeleteApPhase::Done, ..self },
                        BackendOp::Finish(Err(NmError::NotFound)),
                    ),
                    Some(i) => {
                        let handle = conns[i].handle;
                        (
                            DeleteAccessPoint { phase: DeleteApPhase::AwaitActives { handle }, ..self },
                            BackendOp::ListActiveConnections,
                        )
                    },
                }
            },
            (DeleteApPhase::AwaitActives { handle }, BackendEvent::ActiveConnections(actives)) => {
                match get_active_connection(ConnectionKind::Wifi, &self.profile, &actives) {
                    Some(j) => {
                        let active_handle = actives[j].handle;
                        (
                            DeleteAccessPoint {
                                phase: DeleteApPhase::AwaitDeactivated { handle },
                                ..self
                            },
                            BackendOp::DeactivateConnection(active_handle),
                        )
                    },
                    None => (
                        DeleteAccessPoint { phase: DeleteApPhase::AwaitDeleted, ..self },
                        BackendOp::DeleteConnection(handle),
                    ),
                }
            },
            (DeleteApPhase::AwaitDeactivated { handle }, BackendEvent::Deactivated(ok)) => {
                if !ok {
                    (
                        DeleteAccessPoint { phase: DeleteApPhase::Done, ..self },
                        BackendOp::Finish(Err(NmError::BackendOperationFailed)),
                    )
                } else {
                    (
                        DeleteAccessPoint { phase: DeleteApPhase::AwaitDeleted, ..self },
                        BackendOp::DeleteConnection(handle),
                    )
                }
            },
            (DeleteApPhase::AwaitDeleted, BackendEvent::Deleted(ok)) => {
                if !ok {
                    (
                        DeleteAccessPoint { phase: DeleteApPhase::Done, ..self },
                        BackendOp::Finish(Err(NmError::BackendOperationFailed)),
                    )
                } else {
                    (
                        DeleteAccessPoint { phase: DeleteApPhase::Done, ..self },
                        BackendOp::Finish(Ok(())),
                    )
                }
            },
            _ => {
                proof {
                    assert(false);
                }
                (
                    DeleteAccessPoint { phase: DeleteApPhase::Done, ..self },
                    BackendOp::Finish(Err(NmError::BackendOperationFailed)),
                )
            },
        }
    }
}

// Runs an access-point deletion to completion against a backend: the
// access-point connection must exist, is deactivated when active, and is
// then deleted together with its remaining activations.
#[verifier::rlimit(60)]
pub fn delete_access_point(client: &mut BackendModel, opts: &AccessPointOpts) -> (r: Result<
    (),
    NmError,
>)
    ensures
        spec_delete_access_point_new(opts@) matches Err(e) ==> r == Err::<(), NmError>(e)
            && crate::model::model_unchanged(old(client), final(client)),
        (spec_delete_access_point_new(opts@) matches Ok(p) && spec_get_connection(
            ConnectionKind::Wifi,
            p,
            old(client).connections@,
        ) is None) ==> r == Err::<(), NmError>(NmError::NotFound)
            && crate::model::model_unchanged(old(client), final(client)),
        ({
            match spec_delete_access_point_new(opts@) {
                Ok(p) => match spec_get_connection(
                    ConnectionKind::Wifi,
                    p,
                    old(client).connections@,
                ) {
                    Some(k) => {
                        let h = old(client).connections@[k]@.handle;
                        &&& r == Ok::<(), NmError>(())
                        &&& crate::model::stored_list_view(final(client).connections@)
                            == crate::model::stored_list_view(old(client).connections@).filter(
                            |c: crate::connection::StoredConnectionView| c.handle != h,
                        )
                        &&& crate::model::model_rest_unchanged(old(client), final(client))
                        &&& (forall|j: int|
                            0 <= j < old(client).connections@.len()
                                && crate::connection::spec_kind_match(
                                ConnectionKind::Wifi,
                                p,
                                #[trigger] old(client).connections@[j]@.profile,
                            ) ==> j == k) ==> spec_get_connection(
                            ConnectionKind::Wifi,
                            p,
                            final(client).connections@,
                        ) is None
                    },
                    None => true,
                },
                Err(_) => true,
            }
        }),
{
    let (m, _) = match DeleteAccessPoint::new(opts) {
        Ok(pair) => pair,
        Err(e) => {
            return Err(e);
        },
    };
    let DeleteAccessPoint { profile, phase: _ } = m;
    let k = match get_connection(ConnectionKind::Wifi, &profile, &client.connections) {
        Some(k) => k,
        None => {
            return Err(NmError::NotFound);
        },
    };
    let h = client.connections[k].handle;
    if let Some(j) = get_active_connection(ConnectionKind::Wifi, &profile, &client.active) {
        let active_handle = client.active[j].handle;
        let _ = client.answer(&BackendOp::DeactivateConnection(active_handle));
    }
    let _ = client.answer(&BackendOp::DeleteConnection(h));
    proof {
        if crate::model::spec_find_stored_by_handle(old(client).connections@, h, 0) is None {
            crate::model::lemma_find_stored_by_handle_props(old(client).connections@, h, 0);
            assert(old(client).connections@[k as int]@.handle == h);
            assert(false);
        }
        if forall|j: int|
            0 <= j < old(client).connections@.len() && crate::connection::spec_kind_match(
                ConnectionKind::Wifi,
                profile@,
                #[trigger] old(client).connections@[j]@.profile,
            ) ==> j == k as int {
            crate::model::lemma_delete_removes_only_match(
                ConnectionKind::Wifi,
                profile@,
                old(client).connections@,
                client.connections@,
                k as int,
                h,
            );
        }
    }
    Ok(())
}

/// Delete, then status: once no stored connection matches the access-point
/// profile — which [`crate::model::lemma_delete_removes_only_match`] gives
/// after a successful deletion of the only match — a status query for the
/// same options reports that the connection does not exist.
pub proof fn lemma_access_point_delete_then_status(
    o: AccessPointOptsView,
    p: ProfileView,
    conns: Seq<crate::connection::StoredConnection>,
    actives: Seq<crate::connection::ActiveConnection>,
)
    requires
        o.ssid is Some,
        spec_create_access_point_connection(o) == Ok::<ProfileView, NmError>(p),
        spec_get_connection(ConnectionKind::Wifi, p, conns) is None,
    ensures
        spec_access_point_status(o, conns, actives) == Err::<AccessPointStatusView, NmError>(
            NmError::NotFound,
        ),
{
}

/// An access point's status: its reported activation state and its IPv4
/// method and addresses.
#[derive(Debug)]
pub struct AccessPointStatus {
    /// The SSID the report is about.
    pub name: String,
    /// The active connection's state; deactivated when none is active.
    pub state: ActivationState,
    /// How the stored connection obtains its IPv4 configuration.
    pub ip4_method: Ip4Method,
    /// Addresses assigned on the wire, then the static one, annotated.
    pub addresses: Vec<crate::connection::StatusAddress>,
}

/// Mathematical value of an [`AccessPointStatus`].
pub struct AccessPointStatusView {
    pub name: Seq<char>,
    pub state: ActivationState,
    pub ip4_method: Ip4Method,
    pub addresses: Seq<crate::connection::StatusAddressView>,
}

impl View for AccessPointStatus {
    type V = AccessPointStatusView;

    open spec fn view(&self) -> AccessPointStatusView {
        AccessPointStatusView {
            name: self.name@,
            state: self.state,
            ip4_method: self.ip4_method,
            addresses: crate::connection::status_addr_list_view(self.addresses@),
        }
    }
}

/// What an access-point status query reports: the SSID is required and the
/// profile must build; the state and live addresses come from the matching
/// active connection, defaulting to deactivated; the stored connection must
/// exist and carry IPv4 settings, whose static address is appended last.
pub open spec fn spec_access_point_status(
    o: AccessPointOptsView,
    conns: Seq<crate::connection::StoredConnection>,
    actives: Seq<crate::connection::ActiveConnection>,
) -> Result<AccessPointStatusView, NmError> {
    if o.ssid is None {
        Err(NmError::MissingSsid)
    } else {
        match spec_create_access_point_connection(o) {
            Err(e) => Err(e),
            Ok(p) => {
                let state = match spec_get_active_connection(ConnectionKind::Wifi, p, actives) {
                    Some(j) => actives[j]@.state,
                    None => ActivationState::Deactivated,
                };
                let live = match spec_get_active_connection(ConnectionKind::Wifi, p, actives) {
                    Some(j) => actives[j]@.ip4_addresses,
                    None => Seq::empty(),
                };
                match spec_get_connection(ConnectionKind::Wifi, p, conns) {
                    None => Err(NmError::NotFound),
                    Some(i) => match conns[i]@.profile.ip4 {
                        None => Err(NmError::NoIp4Settings),
                        Some(ip4) => Ok(
                            AccessPointStatusView {
                                name: o.ssid.unwrap(),
                                state,
                                ip4_method: ip4.method,
                                addresses: crate::connection::spec_active_addr_views(live)
                                    + (match ip4.address {
                                    Some(c) => seq![
                                        crate::connection::StatusAddressView {
                                            text: crate::ip4::spec_cidr_chars(c),
                                            source: crate::connection::AddrSource::Static,
                                        },
                                    ],
                                    None => Seq::empty(),
                                }),
                            },
                        ),
                    },
                }
            },
        }
    }
}

// Reports the status of the access point the options describe, against
// snapshots of the backend's stored and active connections. Read-only: fails
// only when the options are invalid or the stored access-point connection
// cannot be found.
pub fn access_point_status(
    opts: &AccessPointOpts,
    connections: &Vec<crate::connection::StoredConnection>,
    active_connections: &Vec<crate::connection::ActiveConnection>,
) -> (r: Result<AccessPointStatus, NmError>)
    ensures
        match r {
            Ok(s) => spec_access_point_status(opts@, connections@, active_connections@) == Ok::<
                AccessPointStatusView,
                NmError,
            >(s@),
            Err(e) => spec_access_point_status(opts@, connections@, active_connections@) == Err::<
                AccessPointStatusView,
                NmError,
            >(e),
        },
{
    let ssid = match &opts.ssid {
        Some(ssid) => ssid,
        None => {
            return Err(NmError::MissingSsid);
        },
    };
    let profile = match create_access_point_connection(opts) {
        Ok(p) => p,
        Err(e) => {
            return Err(e);
        },
    };
    let mut state = ActivationState::Deactivated;
    let mut addresses: Vec<crate::connection::StatusAddress> = Vec::new();
    match get_active_connection(ConnectionKind::Wifi, &profile, active_connections) {
        Some(j) => {
            state = active_connections[j].state;
            addresses = crate::connection::annotate_active_addresses(
                &active_connections[j].ip4_addresses,
            );
        },
        None => {
            proof {
                assert(crate::connection::status_addr_list_view(addresses@)
                    =~= crate::connection::spec_active_addr_views(Seq::empty()));
            }
        },
    }
    let stored = match get_connection(ConnectionKind::Wifi, &profile, connections) {
        Some(i) => i,
        None => {
            return Err(NmError::NotFound);
        },
    };
    let ip4 = match connections[stored].profile.ip4 {
        Some(ip4) => ip4,
        None => {
            return Err(NmError::NoIp4Settings);
        },
    };
    let ghost live_part = crate::connection::status_addr_list_view(addresses@);
    if let Some(c) = ip4.address {
        let text = crate::ip4::format_ipv4_cidr(&c);
        addresses.push(
            crate::connection::StatusAddress {
                text,
                source: crate::connection::AddrSource::Static,
            },
        );
        proof {
            assert(crate::connection::status_addr_list_view(addresses@) =~= live_part + seq![
                crate::connection::StatusAddressView {
                    text: crate::ip4::spec_cidr_chars(c),
                    source: crate::connection::AddrSource::Static,
                },
            ]);
        }
    } else {
        proof {
            assert(crate::connection::status_addr_list_view(addresses@) =~= live_part
                + Seq::<crate::connection::StatusAddressView>::empty());
        }
    }
    Ok(AccessPointStatus { name: ssid.clone(), state, ip4_method: ip4.method, addresses })
}

} // verus!
