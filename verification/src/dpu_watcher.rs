//! DPU watcher: which callbacks an observed DPU update triggers, and the
//! builder that collects the callbacks and the watch settings.
use vstd::prelude::*;
use std::sync::Arc;

verus! {

/// The lifecycle phase a DPU reports in its status.
pub enum DpuStatusPhase {
    /// The DPU is ready for use.
    Ready,
    /// The DPU failed.
    Error,
    /// The host must be rebooted.
    Rebooting,
    /// Maintenance on the node is needed.
    NodeEffect,
    /// Any other phase, by name.
    Other(String),
}

/// Plain-value model of a phase.
pub enum PhaseModel {
    Ready,
    Error,
    Rebooting,
    NodeEffect,
    Other(Seq<char>),
}

impl View for DpuStatusPhase {
    type V = PhaseModel;

    open spec fn view(&self) -> PhaseModel {
        match self {
            DpuStatusPhase::Ready => PhaseModel::Ready,
            DpuStatusPhase::Error => PhaseModel::Error,
            DpuStatusPhase::Rebooting => PhaseModel::Rebooting,
            DpuStatusPhase::NodeEffect => PhaseModel::NodeEffect,
            DpuStatusPhase::Other(s) => PhaseModel::Other(s@),
        }
    }
}

impl DpuStatusPhase {
    /// A copy of the phase.
    pub fn duplicate(&self) -> (p: DpuStatusPhase)
        ensures
            p@ == self@,
    {
        match self {
            DpuStatusPhase::Ready => DpuStatusPhase::Ready,
            DpuStatusPhase::Error => DpuStatusPhase::Error,
            DpuStatusPhase::Rebooting => DpuStatusPhase::Rebooting,
            DpuStatusPhase::NodeEffect => DpuStatusPhase::NodeEffect,
            DpuStatusPhase::Other(s) => DpuStatusPhase::Other(s.clone()),
        }
    }
}

/// What the watcher reads of an observed DPU resource.
pub struct DpuSnapshot {
    /// The resource name, if set.
    pub name: Option<String>,
    /// The reported phase; `None` when the resource has no status yet.
    pub status_phase: Option<DpuStatusPhase>,
    pub device_name: String,
    pub node_name: String,
    /// The host BMC address, if known.
    pub bmc_ip: Option<String>,
}

/// Any update of a DPU.
pub struct DpuEvent {
    pub dpu_name: String,
    pub device_name: String,
    pub node_name: String,
    pub phase: DpuStatusPhase,
}

/// The DPU's node needs maintenance.
pub struct MaintenanceEvent {
    pub dpu_name: String,
    pub node_name: String,
}

/// The DPU is ready.
pub struct DpuReadyEvent {
    pub dpu_name: String,
    pub device_name: String,
    pub node_name: String,
}

/// The DPU is in error.
pub struct DpuErrorEvent {
    pub dpu_name: String,
    pub device_name: String,
    pub node_name: String,
}

/// The DPU's host must be rebooted.
pub struct RebootRequiredEvent {
    pub dpu_name: String,
    pub node_name: String,
    /// The host BMC address; empty when unknown.
    pub host_bmc_ip: String,
}

/// One callback to run, with its event.
pub enum WatcherCallback {
    DpuEvent(DpuEvent),
    Maintenance(MaintenanceEvent),
    Ready(DpuReadyEvent),
    Error(DpuErrorEvent),
    RebootRequired(RebootRequiredEvent),
}

/// Plain-value model of a callback and its event; names in the order
/// DPU name, device name, node name.
pub enum CallbackModel {
    DpuEvent(Seq<char>, Seq<char>, Seq<char>, PhaseModel),
    Maintenance(Seq<char>, Seq<char>),
    Ready(Seq<char>, Seq<char>, Seq<char>),
    Error(Seq<char>, Seq<char>, Seq<char>),
    RebootRequired(Seq<char>, Seq<char>, Seq<char>),
}

impl View for WatcherCallback {
    type V = CallbackModel;

    open spec fn view(&self) -> CallbackModel {
        match self {
            WatcherCallback::DpuEvent(e) => CallbackModel::DpuEvent(
                e.dpu_name@,
                e.device_name@,
                e.node_name@,
                e.phase@,
            ),
            WatcherCallback::Maintenance(e) => CallbackModel::Maintenance(e.dpu_name@, e.node_name@),
            WatcherCallback::Ready(e) => CallbackModel::Ready(e.dpu_name@, e.device_name@, e.node_name@),
            WatcherCallback::Error(e) => CallbackModel::Error(e.dpu_name@, e.device_name@, e.node_name@),
            WatcherCallback::RebootRequired(e) => CallbackModel::RebootRequired(
                e.dpu_name@,
                e.node_name@,
                e.host_bmc_ip@,
            ),
        }
    }
}

/// The callbacks an update of `dpu` triggers, in the order they run: none
/// for a resource without status or name; otherwise the DPU event, then the
/// callback of its phase (maintenance for `NodeEffect`, ready, error, or
/// reboot-required for `Rebooting`), if any.
pub open spec fn callbacks_for(
    name: Option<Seq<char>>,
    phase: Option<PhaseModel>,
    device: Seq<char>,
    node: Seq<char>,
    bmc_ip: Option<Seq<char>>,
) -> Seq<CallbackModel> {
    match (phase, name) {
        (Some(p), Some(n)) => seq![CallbackModel::DpuEvent(n, device, node, p)] + match p {
            PhaseModel::NodeEffect => seq![CallbackModel::Maintenance(n, node)],
            PhaseModel::Ready => seq![CallbackModel::Ready(n, device, node)],
            PhaseModel::Error => seq![CallbackModel::Error(n, device, node)],
            PhaseModel::Rebooting => seq![
                CallbackModel::RebootRequired(
                    n,
                    node,
                    match bmc_ip {
                        Some(ip) => ip,
                        None => Seq::<char>::empty(),
                    },
                ),
            ],
            PhaseModel::Other(_) => seq![],
        },
        _ => seq![],
    }
}

pub open spec fn opt_text(o: Option<String>) -> Option<Seq<char>> {
    match o {
        Some(s) => Some(s@),
        None => None,
    }
}

pub open spec fn opt_phase(o: Option<DpuStatusPhase>) -> Option<PhaseModel> {
    match o {
        Some(p) => Some(p@),
        None => None,
    }
}

/// The callbacks an update of `dpu` triggers, with their events, in the
/// order they run; the runner stops at the first callback that fails.
pub fn callbacks_for_update(dpu: &DpuSnapshot) -> (r: Vec<WatcherCallback>)
    ensures
        r@.map_values(|c: WatcherCallback| c@) == callbacks_for(
            opt_text(dpu.name),
            opt_phase(dpu.status_phase),
            dpu.device_name@,
            dpu.node_name@,
            opt_text(dpu.bmc_ip),
        ),
{
    let mut out: Vec<WatcherCallback> = Vec::new();
    let phase = match &dpu.status_phase {
        Some(p) => p,
        None => {
            assert(out@.map_values(|c: WatcherCallback| c@) =~= Seq::<CallbackModel>::empty());
            return out;
        },
    };
    let name = match &dpu.name {
        Some(n) => n,
        None => {
            assert(out@.map_values(|c: WatcherCallback| c@) =~= Seq::<CallbackModel>::empty());
            return out;
        },
    };
    out.push(
        WatcherCallback::DpuEvent(
            DpuEvent {
                dpu_name: name.clone(),
                device_name: dpu.device_name.clone(),
                node_name: dpu.node_name.clone(),
                phase: phase.duplicate(),
            },
        ),
    );
    match phase {
        DpuStatusPhase::NodeEffect => {
            out.push(
                WatcherCallback::Maintenance(
                    MaintenanceEvent { dpu_name: name.clone(), node_name: dpu.node_name.clone() },
                ),
            );
        },
        DpuStatusPhase::Ready => {
            out.push(
                WatcherCallback::Ready(
                    DpuReadyEvent {
                        dpu_name: name.clone(),
                        device_name: dpu.device_name.clone(),
                        node_name: dpu.node_name.clone(),
                    },
                ),
            );
        },
        DpuStatusPhase::Error => {
            out.push(
                WatcherCallback::Error(
                    DpuErrorEvent {
                        dpu_name: name.clone(),
                        device_name: dpu.device_name.clone(),
                        node_name: dpu.node_name.clone(),
                    },
                ),
            );
        },
        DpuStatusPhase::Rebooting => {
            let host_bmc_ip = match &dpu.bmc_ip {
                Some(ip) => ip.clone(),
                None => String::new(),
            };
            out.push(
                WatcherCallback::RebootRequired(
                    RebootRequiredEvent {
                        dpu_name: name.clone(),
                        node_name: dpu.node_name.clone(),
                        host_bmc_ip,
                    },
                ),
            );
        },
        DpuStatusPhase::Other(_) => {},
    }
    assert(out@.map_values(|c: WatcherCallback| c@) =~= callbacks_for(
        opt_text(dpu.name),
        opt_phase(dpu.status_phase),
        dpu.device_name@,
        dpu.node_name@,
        opt_text(dpu.bmc_ip),
    ));
    out
}

/// The place of a callback that has not been registered: it accepts every
/// event and does nothing.
pub struct NoopCallback;

/// The five callbacks of a watcher.
pub struct Callbacks<DE, RB, RD, MN, ER> {
    pub dpu_event: DE,
    pub reboot: RB,
    pub ready: RD,
    pub maintenance: MN,
    pub error: ER,
}

/// Collects the repository, namespace, label selector and callbacks of a
/// DPU watcher.
pub struct DpuWatcherBuilder<R, DE, RB, RD, MN, ER> {
    repo: Arc<R>,
    namespace: String,
    label_selector: Option<String>,
    cbs: Callbacks<DE, RB, RD, MN, ER>,
}

impl<R, DE, RB, RD, MN, ER> DpuWatcherBuilder<R, DE, RB, RD, MN, ER> {
    /// The watched namespace.
    pub closed spec fn spec_namespace(&self) -> Seq<char> {
        self.namespace@
    }

    /// The label selector, if any.
    pub closed spec fn spec_label_selector(&self) -> Option<Seq<char>> {
        opt_text(self.label_selector)
    }

    /// The repository.
    pub closed spec fn spec_repo(&self) -> Arc<R> {
        self.repo
    }

    /// The callbacks.
    pub closed spec fn spec_callbacks(&self) -> Callbacks<DE, RB, RD, MN, ER> {
        self.cbs
    }
}

impl<R> DpuWatcherBuilder<R, NoopCallback, NoopCallback, NoopCallback, NoopCallback, NoopCallback> {
    /// A builder for `namespace`, with no label selector and no callbacks.
    pub fn new<N>(repo: Arc<R>, namespace: N) -> (b: Self) where String: From<N>
        ensures
            b.spec_repo() == repo,
            exists|s: String| #[trigger] call_ensures(String::from, (namespace,), s) && s@ == b.spec_namespace(),
            b.spec_label_selector() is None,
    {
        let ns = String::from(namespace);
        assert(call_ensures(String::from, (namespace,), ns));
        DpuWatcherBuilder {
            repo,
            namespace: ns,
            label_selector: None,
            cbs: Callbacks {
                dpu_event: NoopCallback,
                reboot: NoopCallback,
                ready: NoopCallback,
                maintenance: NoopCallback,
                error: NoopCallback,
            },
        }
    }
}

impl<R, DE, RB, RD, MN, ER> DpuWatcherBuilder<R, DE, RB, RD, MN, ER> {
    /// Restricts the watcher to DPU resources matching `selector`.
    pub fn with_label_selector<S>(self, selector: S) -> (b: Self) where String: From<S>
        ensures
            b.spec_repo() == self.spec_repo(),
            b.spec_namespace() == self.spec_namespace(),
            b.spec_callbacks() == self.spec_callbacks(),
            exists|s: String|
                #[trigger] call_ensures(String::from, (selector,), s) && b.spec_label_selector() == Some(s@),
    {
        let sel = String::from(selector);
        assert(call_ensures(String::from, (selector,), sel));
        let mut b = self;
        b.label_selector = Some(sel);
        b
    }

    /// Registers the callback for every DPU update.
    pub fn on_dpu_event<F>(self, callback: F) -> (b: DpuWatcherBuilder<R, F, RB, RD, MN, ER>)
        ensures
            b.spec_repo() == self.spec_repo(),
            b.spec_namespace() == self.spec_namespace(),
            b.spec_label_selector() == self.spec_label_selector(),
            b.spec_callbacks().dpu_event == callback,
            b.spec_callbacks().reboot == self.spec_callbacks().reboot,
            b.spec_callbacks().ready == self.spec_callbacks().ready,
            b.spec_callbacks().maintenance == self.spec_callbacks().maintenance,
            b.spec_callbacks().error == self.spec_callbacks().error,
    {
        DpuWatcherBuilder {
            repo: self.repo,
            namespace: self.namespace,
            label_selector: self.label_selector,
            cbs: Callbacks {
                dpu_event: callback,
                reboot: self.cbs.reboot,
                ready: self.cbs.ready,
                maintenance: self.cbs.maintenance,
                error: self.cbs.error,
            },
        }
    }

    /// Registers the callback for updates in the `Rebooting` phase.
    pub fn on_reboot_required<F>(self, callback: F) -> (b: DpuWatcherBuilder<R, DE, F, RD, MN, ER>)
        ensures
            b.spec_repo() == self.spec_repo(),
            b.spec_namespace() == self.spec_namespace(),
            b.spec_label_selector() == self.spec_label_selector(),
            b.spec_callbacks().dpu_event == self.spec_callbacks().dpu_event,
            b.spec_callbacks().reboot == callback,
            b.spec_callbacks().ready == self.spec_callbacks().ready,
            b.spec_callbacks().maintenance == self.spec_callbacks().maintenance,
            b.spec_callbacks().error == self.spec_callbacks().error,
    {
        DpuWatcherBuilder {
            repo: self.repo,
            namespace: self.namespace,
            label_selector: self.label_selector,
            cbs: Callbacks {
                dpu_event: self.cbs.dpu_event,
                reboot: callback,
                ready: self.cbs.ready,
                maintenance: self.cbs.maintenance,
                error: self.cbs.error,
            },
        }
    }

    /// Registers the callback for updates in the `Ready` phase.
    pub fn on_dpu_ready<F>(self, callback: F) -> (b: DpuWatcherBuilder<R, DE, RB, F, MN, ER>)
        ensures
            b.spec_repo() == self.spec_repo(),
            b.spec_namespace() == self.spec_namespace(),
            b.spec_label_selector() == self.spec_label_selector(),
            b.spec_callbacks().dpu_event == self.spec_callbacks().dpu_event,
            b.spec_callbacks().reboot == self.spec_callbacks().reboot,
            b.spec_callbacks().ready == callback,
            b.spec_callbacks().maintenance == self.spec_callbacks().maintenance,
            b.spec_callbacks().error == self.spec_callbacks().error,
    {
        DpuWatcherBuilder {
            repo: self.repo,
            namespace: self.namespace,
            label_selector: self.label_selector,
            cbs: Callbacks {
                dpu_event: self.cbs.dpu_event,
                reboot: self.cbs.reboot,
                ready: callback,
                maintenance: self.cbs.maintenance,
                error: self.cbs.error,
            },
        }
    }

    /// Registers the callback for updates in the `NodeEffect` phase.
    pub fn on_maintenance_needed<F>(self, callback: F) -> (b: DpuWatcherBuilder<R, DE, RB, RD, F, ER>)
        ensures
            b.spec_repo() == self.spec_repo(),
            b.spec_namespace() == self.spec_namespace(),
            b.spec_label_selector() == self.spec_label_selector(),
            b.spec_callbacks().dpu_event == self.spec_callbacks().dpu_event,
            b.spec_callbacks().reboot == self.spec_callbacks().reboot,
            b.spec_callbacks().ready == self.spec_callbacks().ready,
            b.spec_callbacks().maintenance == callback,
            b.spec_callbacks().error == self.spec_callbacks().error,
    {
        DpuWatcherBuilder {
            repo: self.repo,
            namespace: self.namespace,
            label_selector: self.label_selector,
            cbs: Callbacks {
                dpu_event: self.cbs.dpu_event,
                reboot: self.cbs.reboot,
                ready: self.cbs.ready,
                maintenance: callback,
                error: self.cbs.error,
            },
        }
    }

    /// Registers the callback for updates in the `Error` phase.
    pub fn on_error<F>(self, callback: F) -> (b: DpuWatcherBuilder<R, DE, RB, RD, MN, F>)
        ensures
            b.spec_repo() == self.spec_repo(),
            b.spec_namespace() == self.spec_namespace(),
            b.spec_label_selector() == self.spec_label_selector(),
            b.spec_callbacks().dpu_event == self.spec_callbacks().dpu_event,
            b.spec_callbacks().reboot == self.spec_callbacks().reboot,
            b.spec_callbacks().ready == self.spec_callbacks().ready,
            b.spec_callbacks().maintenance == self.spec_callbacks().maintenance,
            b.spec_callbacks().error == callback,
    {
        DpuWatcherBuilder {
            repo: self.repo,
            namespace: self.namespace,
            label_selector: self.label_selector,
            cbs: Callbacks {
                dpu_event: self.cbs.dpu_event,
                reboot: self.cbs.reboot,
                ready: self.cbs.ready,
                maintenance: self.cbs.maintenance,
                error: callback,
            },
        }
    }

    /// The parts of the builder: repository, namespace, label selector and
    /// callbacks.
    pub fn into_parts(self) -> (parts: (Arc<R>, String, Option<String>, Callbacks<DE, RB, RD, MN, ER>))
        ensures
            parts.0 == self.spec_repo(),
            parts.1@ == self.spec_namespace(),
            opt_text(parts.2) == self.spec_label_selector(),
            parts.3 == self.spec_callbacks(),
    {
        (self.repo, self.namespace, self.label_selector, self.cbs)
    }
}


// ---------------------------------------------------------------------
// Laws
// ---------------------------------------------------------------------

/// An update of a DPU without status or without name triggers no callback.
pub proof fn law_incomplete_update_triggers_nothing(
    name: Option<Seq<char>>,
    phase: Option<PhaseModel>,
    device: Seq<char>,
    node: Seq<char>,
    bmc_ip: Option<Seq<char>>,
)
    requires
        name is None || phase is None,
    ensures
        callbacks_for(name, phase, device, node, bmc_ip) == Seq::<CallbackModel>::empty(),
{
}

/// Every complete update triggers the DPU-event callback first, with the
/// reported phase, and at most one phase callback after it.
pub proof fn law_dpu_event_comes_first(
    name: Seq<char>,
    phase: PhaseModel,
    device: Seq<char>,
    node: Seq<char>,
    bmc_ip: Option<Seq<char>>,
)
    ensures
        ({
            let cbs = callbacks_for(Some(name), Some(phase), device, node, bmc_ip);
            &&& 1 <= cbs.len() <= 2
            &&& cbs[0] == CallbackModel::DpuEvent(name, device, node, phase)
            &&& (cbs.len() == 2 <==> !(phase is Other))
        }),
{
}

/// A phase callback fires on every update in its phase, not only on a
/// transition into it.
pub proof fn law_phase_callback_on_every_update(
    name: Seq<char>,
    phase: PhaseModel,
    device: Seq<char>,
    node: Seq<char>,
    bmc_ip: Option<Seq<char>>,
)
    ensures
        ({
            let cbs = callbacks_for(Some(name), Some(phase), device, node, bmc_ip);
            &&& phase is Rebooting ==> cbs[1] is RebootRequired
            &&& phase is Ready ==> cbs[1] is Ready
            &&& phase is Error ==> cbs[1] is Error
            &&& phase is NodeEffect ==> cbs[1] is Maintenance
        }),
{
}


/// An update in the `Rebooting` phase passes the DPU's BMC address, when it
/// is known, into the reboot event (an empty address when it is not), with
/// the update's DPU and node names.
pub proof fn law_reboot_event_carries_bmc_address(
    name: Seq<char>,
    device: Seq<char>,
    node: Seq<char>,
    bmc_ip: Option<Seq<char>>,
)
    ensures
        ({
            let cbs = callbacks_for(Some(name), Some(PhaseModel::Rebooting), device, node, bmc_ip);
            &&& cbs.len() == 2
            &&& bmc_ip matches Some(ip) ==> cbs[1] == CallbackModel::RebootRequired(name, node, ip)
            &&& bmc_ip is None ==> cbs[1] == CallbackModel::RebootRequired(name, node, Seq::<char>::empty())
        }),
{
}

} // verus!
