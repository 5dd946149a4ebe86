//! Sandboxes: what a request describes and what the driver reports.

use vstd::prelude::*;

use crate::driver::environment::Environment;
use crate::text::same;

verus! {

/// Name under which the driver reports.
pub const DRIVER_NAME: &'static str = "openshell-driver-vm";

/// Where a sandbox is in its life.
#[derive(Debug, Clone, Copy, PartialEq, Eq, Structural)]
pub enum SandboxPhase {
    Unspecified,
    Provisioning,
    Ready,
    Error,
    Deleting,
}

/// One field of what the driver reports about a machine.
#[derive(Debug)]
pub enum FieldValue {
    Text(String),
    Number(u32),
}

/// The view of a [`FieldValue`].
pub enum FieldView {
    Text(Seq<char>),
    Number(u32),
}

impl View for FieldValue {
    type V = FieldView;

    open spec fn view(&self) -> FieldView {
        match self {
            FieldValue::Text(s) => FieldView::Text(s@),
            FieldValue::Number(n) => FieldView::Number(*n),
        }
    }
}

/// What the driver reports about a machine, by field name.
#[derive(Debug)]
pub struct DriverConfig {
    pub fields: Vec<(String, FieldValue)>,
}

/// The view of a [`DriverConfig`].
pub type FieldsView = Seq<(Seq<char>, FieldView)>;

pub open spec fn field_views(v: Seq<(String, FieldValue)>) -> FieldsView {
    v.map_values(|p: (String, FieldValue)| (p.0@, p.1@))
}

impl View for DriverConfig {
    type V = FieldsView;

    open spec fn view(&self) -> FieldsView {
        field_views(self.fields@)
    }
}

/// A statement about the state of a sandbox.
#[derive(Debug)]
pub struct SandboxCondition {
    pub condition_type: String,
    pub status: String,
    pub reason: String,
    pub message: String,
    pub last_transition_time: String,
}

/// The view of a [`SandboxCondition`].
#[verifier::ext_equal]
pub struct ConditionView {
    pub condition_type: Seq<char>,
    pub status: Seq<char>,
    pub reason: Seq<char>,
    pub message: Seq<char>,
    pub last_transition_time: Seq<char>,
}

impl View for SandboxCondition {
    type V = ConditionView;

    open spec fn view(&self) -> ConditionView {
        ConditionView {
            condition_type: self.condition_type@,
            status: self.status@,
            reason: self.reason@,
            message: self.message@,
            last_transition_time: self.last_transition_time@,
        }
    }
}

/// The reported state of a sandbox.
#[derive(Debug)]
pub struct SandboxStatus {
    pub sandbox_name: String,
    pub agent_pod: String,
    pub agent_fd: String,
    pub sandbox_fd: String,
    pub conditions: Vec<SandboxCondition>,
    pub driver_name: String,
    pub driver_config: Option<DriverConfig>,
}

/// The view of a [`SandboxStatus`].
#[verifier::ext_equal]
pub struct SandboxStatusView {
    pub sandbox_name: Seq<char>,
    pub agent_pod: Seq<char>,
    pub agent_fd: Seq<char>,
    pub sandbox_fd: Seq<char>,
    pub conditions: Seq<ConditionView>,
    pub driver_name: Seq<char>,
    pub driver_config: Option<FieldsView>,
}

pub open spec fn condition_views(v: Seq<SandboxCondition>) -> Seq<ConditionView> {
    v.map_values(|c: SandboxCondition| c@)
}

/// The view of an optional report.
pub open spec fn config_view(c: Option<DriverConfig>) -> Option<FieldsView> {
    match c {
        Some(c) => Some(c@),
        None => None,
    }
}

impl View for SandboxStatus {
    type V = SandboxStatusView;

    open spec fn view(&self) -> SandboxStatusView {
        SandboxStatusView {
            sandbox_name: self.sandbox_name@,
            agent_pod: self.agent_pod@,
            agent_fd: self.agent_fd@,
            sandbox_fd: self.sandbox_fd@,
            conditions: condition_views(self.conditions@),
            driver_name: self.driver_name@,
            driver_config: config_view(self.driver_config),
        }
    }
}

/// What a sandbox is made from by default.
#[derive(Debug)]
pub struct SandboxTemplate {
    pub image: String,
    pub runtime_class_name: String,
    pub agent_socket: String,
    pub environment: Environment,
    /// Whether volume claims are given.
    pub volume_claim_templates: bool,
    /// Whether resource limits are given.
    pub resources: bool,
}

/// The view of a [`SandboxTemplate`].
pub struct TemplateView {
    pub image: Seq<char>,
    pub runtime_class_name: Seq<char>,
    pub agent_socket: Seq<char>,
    pub environment: Map<Seq<char>, Seq<char>>,
    pub volume_claim_templates: bool,
    pub resources: bool,
}

impl View for SandboxTemplate {
    type V = TemplateView;

    open spec fn view(&self) -> TemplateView {
        TemplateView {
            image: self.image@,
            runtime_class_name: self.runtime_class_name@,
            agent_socket: self.agent_socket@,
            environment: self.environment@,
            volume_claim_templates: self.volume_claim_templates,
            resources: self.resources,
        }
    }
}

impl Default for SandboxTemplate {
    fn default() -> (t: SandboxTemplate)
        ensures
            t@ == empty_template(),
    {
        SandboxTemplate {
            image: String::new(),
            runtime_class_name: String::new(),
            agent_socket: String::new(),
            environment: Environment::new(),
            volume_claim_templates: false,
            resources: false,
        }
    }
}

/// The template that says nothing.
pub open spec fn empty_template() -> TemplateView {
    TemplateView {
        image: Seq::empty(),
        runtime_class_name: Seq::empty(),
        agent_socket: Seq::empty(),
        environment: Map::empty(),
        volume_claim_templates: false,
        resources: false,
    }
}

/// What is wanted of a sandbox.
#[derive(Debug)]
pub struct SandboxSpec {
    pub log_level: String,
    pub environment: Environment,
    pub template: Option<SandboxTemplate>,
    pub gpu: bool,
}

/// The view of a [`SandboxSpec`].
pub struct SpecView {
    pub log_level: Seq<char>,
    pub environment: Map<Seq<char>, Seq<char>>,
    pub template: Option<TemplateView>,
    pub gpu: bool,
}

pub open spec fn template_view(t: Option<SandboxTemplate>) -> Option<TemplateView> {
    match t {
        Some(t) => Some(t@),
        None => None,
    }
}

impl View for SandboxSpec {
    type V = SpecView;

    open spec fn view(&self) -> SpecView {
        SpecView {
            log_level: self.log_level@,
            environment: self.environment@,
            template: template_view(self.template),
            gpu: self.gpu,
        }
    }
}

impl Default for SandboxSpec {
    fn default() -> (s: SandboxSpec)
        ensures
            s@ == empty_spec(),
    {
        SandboxSpec {
            log_level: String::new(),
            environment: Environment::new(),
            template: None,
            gpu: false,
        }
    }
}

/// The wishes that say nothing.
pub open spec fn empty_spec() -> SpecView {
    SpecView { log_level: Seq::empty(), environment: Map::empty(), template: None, gpu: false }
}

/// A sandbox, as described by a request or as reported by the driver.
#[derive(Debug)]
pub struct Sandbox {
    pub id: String,
    pub name: String,
    pub namespace: String,
    pub sandbox_spec: Option<SandboxSpec>,
    pub status: Option<SandboxStatus>,
    pub phase: SandboxPhase,
}

/// The view of a [`Sandbox`].
#[verifier::ext_equal]
pub struct SandboxView {
    pub id: Seq<char>,
    pub name: Seq<char>,
    pub namespace: Seq<char>,
    pub sandbox_spec: Option<SpecView>,
    pub status: Option<SandboxStatusView>,
    pub phase: SandboxPhase,
}

pub open spec fn spec_part(s: Option<SandboxSpec>) -> Option<SpecView> {
    match s {
        Some(s) => Some(s@),
        None => None,
    }
}

pub open spec fn status_part(s: Option<SandboxStatus>) -> Option<SandboxStatusView> {
    match s {
        Some(s) => Some(s@),
        None => None,
    }
}

impl View for Sandbox {
    type V = SandboxView;

    open spec fn view(&self) -> SandboxView {
        SandboxView {
            id: self.id@,
            name: self.name@,
            namespace: self.namespace@,
            sandbox_spec: spec_part(self.sandbox_spec),
            status: status_part(self.status),
            phase: self.phase,
        }
    }
}

impl Default for Sandbox {
    fn default() -> (s: Sandbox)
        ensures
            s@ == (SandboxView {
                id: Seq::empty(),
                name: Seq::empty(),
                namespace: Seq::empty(),
                sandbox_spec: None,
                status: None,
                phase: SandboxPhase::Unspecified,
            }),
    {
        Sandbox {
            id: String::new(),
            name: String::new(),
            namespace: String::new(),
            sandbox_spec: None,
            status: None,
            phase: SandboxPhase::Unspecified,
        }
    }
}

impl FieldValue {
    pub fn copy(&self) -> (r: FieldValue)
        ensures
            r@ == self@,
    {
        match self {
            FieldValue::Text(s) => FieldValue::Text(s.clone()),
            FieldValue::Number(n) => FieldValue::Number(*n),
        }
    }
}

/// The first field with this name.
pub open spec fn field(fields: FieldsView, name: Seq<char>) -> Option<FieldView>
    decreases fields.len(),
{
    if fields.len() == 0 {
        None
    } else if fields[0].0 == name {
        Some(fields[0].1)
    } else {
        field(fields.drop_first(), name)
    }
}

impl DriverConfig {
    pub fn copy(&self) -> (r: DriverConfig)
        ensures
            r@ == self@,
    {
        let mut fields: Vec<(String, FieldValue)> = Vec::new();
        let mut i: usize = 0;
        while i < self.fields.len()
            invariant
                i <= self.fields@.len(),
                field_views(fields@) =~= self@.take(i as int),
            decreases self.fields.len() - i,
        {
            let copied = (self.fields[i].0.clone(), self.fields[i].1.copy());
            let ghost done = field_views(fields@);
            fields.push(copied);
            assert(field_views(fields@) =~= done.push((copied.0@, copied.1@)));
            i = i + 1;
        }
        assert(self@.take(i as int) =~= self@);
        DriverConfig { fields }
    }

    /// The value of a field.
    pub fn get(&self, name: &str) -> (r: Option<&FieldValue>)
        ensures
            match r {
                Some(v) => field(self@, name@) == Some(v@),
                None => field(self@, name@) is None,
            },
    {
        let ghost all = self@;
        let mut i: usize = 0;
        assert(all.skip(0) =~= all);
        while i < self.fields.len()
            invariant
                i <= self.fields@.len(),
                all == self@,
                field(all, name@) == field(all.skip(i as int), name@),
            decreases self.fields.len() - i,
        {
            assert(all.skip(i as int)[0] == all[i as int]);
            if same(self.fields[i].0.as_str(), name) {
                return Some(&self.fields[i].1);
            }
            assert(all.skip(i as int).drop_first() =~= all.skip(i + 1));
            i = i + 1;
        }
        None
    }
}

impl SandboxCondition {
    pub fn copy(&self) -> (r: SandboxCondition)
        ensures
            r@ == self@,
    {
        SandboxCondition {
            condition_type: self.condition_type.clone(),
            status: self.status.clone(),
            reason: self.reason.clone(),
            message: self.message.clone(),
            last_transition_time: self.last_transition_time.clone(),
        }
    }
}

fn copy_config(c: &Option<DriverConfig>) -> (r: Option<DriverConfig>)
    ensures
        config_view(r) == config_view(*c),
{
    match c {
        Some(c) => Some(c.copy()),
        None => None,
    }
}

impl SandboxStatus {
    pub fn copy(&self) -> (r: SandboxStatus)
        ensures
            r@ == self@,
    {
        let mut conditions: Vec<SandboxCondition> = Vec::new();
        let mut i: usize = 0;
        while i < self.conditions.len()
            invariant
                i <= self.conditions@.len(),
                condition_views(conditions@) =~= self@.conditions.take(i as int),
            decreases self.conditions.len() - i,
        {
            let copied = self.conditions[i].copy();
            let ghost done = condition_views(conditions@);
            conditions.push(copied);
            assert(condition_views(conditions@) =~= done.push(copied@));
            i = i + 1;
        }
        assert(self@.conditions.take(i as int) =~= self@.conditions);
        SandboxStatus {
            sandbox_name: self.sandbox_name.clone(),
            agent_pod: self.agent_pod.clone(),
            agent_fd: self.agent_fd.clone(),
            sandbox_fd: self.sandbox_fd.clone(),
            conditions,
            driver_name: self.driver_name.clone(),
            driver_config: copy_config(&self.driver_config),
        }
    }
}

impl SandboxTemplate {
    pub fn copy(&self) -> (r: SandboxTemplate)
        ensures
            r@ == self@,
    {
        SandboxTemplate {
            image: self.image.clone(),
            runtime_class_name: self.runtime_class_name.clone(),
            agent_socket: self.agent_socket.clone(),
            environment: self.environment.copy(),
            volume_claim_templates: self.volume_claim_templates,
            resources: self.resources,
        }
    }
}

impl SandboxSpec {
    pub fn copy(&self) -> (r: SandboxSpec)
        ensures
            r@ == self@,
    {
        let template = match &self.template {
            Some(t) => Some(t.copy()),
            None => None,
        };
        SandboxSpec {
            log_level: self.log_level.clone(),
            environment: self.environment.copy(),
            template,
            gpu: self.gpu,
        }
    }
}

impl Sandbox {
    pub fn copy(&self) -> (r: Sandbox)
        ensures
            r@ == self@,
    {
        let sandbox_spec = match &self.sandbox_spec {
            Some(s) => Some(s.copy()),
            None => None,
        };
        let status = match &self.status {
            Some(s) => Some(s.copy()),
            None => None,
        };
        Sandbox {
            id: self.id.clone(),
            name: self.name.clone(),
            namespace: self.namespace.clone(),
            sandbox_spec,
            status,
            phase: self.phase,
        }
    }
}

/// A statement on readiness.
pub open spec fn condition(status: Seq<char>, reason: Seq<char>, message: Seq<char>) -> ConditionView {
    ConditionView {
        condition_type: "Ready"@,
        status,
        reason,
        message,
        last_transition_time: Seq::empty(),
    }
}

pub open spec fn provisioning() -> ConditionView {
    condition("False"@, "Starting"@, "VM is starting"@)
}

pub open spec fn ready() -> ConditionView {
    condition("True"@, "Listening"@, "Supervisor is listening for SSH connections"@)
}

pub open spec fn deleting() -> ConditionView {
    condition("False"@, "Deleting"@, "Sandbox is being deleted"@)
}

fn condition_of(status: &str, reason: &str, message: &str) -> (c: SandboxCondition)
    ensures
        c@ == condition(status@, reason@, message@),
{
    SandboxCondition {
        condition_type: "Ready".to_owned(),
        status: status.to_owned(),
        reason: reason.to_owned(),
        message: message.to_owned(),
        last_transition_time: String::new(),
    }
}

pub fn provisioning_condition() -> (c: SandboxCondition)
    ensures
        c@ == provisioning(),
        c.condition_type@ == "Ready"@,
        c.status@ == "False"@,
        c.reason@ == "Starting"@,
        c.message@ == "VM is starting"@,
        c.last_transition_time@.len() == 0,
{
    condition_of("False", "Starting", "VM is starting")
}

pub fn ready_condition() -> (c: SandboxCondition)
    ensures
        c@ == ready(),
        c.condition_type@ == "Ready"@,
        c.status@ == "True"@,
        c.reason@ == "Listening"@,
        c.message@ == "Supervisor is listening for SSH connections"@,
        c.last_transition_time@.len() == 0,
{
    condition_of("True", "Listening", "Supervisor is listening for SSH connections")
}

pub fn deleting_condition() -> (c: SandboxCondition)
    ensures
        c@ == deleting(),
        c.condition_type@ == "Ready"@,
        c.status@ == "False"@,
        c.reason@ == "Deleting"@,
        c.message@ == "Sandbox is being deleted"@,
        c.last_transition_time@.len() == 0,
{
    condition_of("False", "Deleting", "Sandbox is being deleted")
}

pub fn error_condition(reason: &str, message: &str) -> (c: SandboxCondition)
    ensures
        c@ == condition("False"@, reason@, message@),
        c.condition_type@ == "Ready"@,
        c.status@ == "False"@,
        c.reason@ == reason@,
        c.message@ == message@,
        c.last_transition_time@.len() == 0,
{
    condition_of("False", reason, message)
}

/// The status with a single condition.
pub open spec fn single_status(
    name: Seq<char>,
    condition: ConditionView,
    driver_config: Option<FieldsView>,
) -> SandboxStatusView {
    SandboxStatusView {
        sandbox_name: name,
        agent_pod: Seq::empty(),
        agent_fd: Seq::empty(),
        sandbox_fd: Seq::empty(),
        conditions: seq![condition],
        driver_name: DRIVER_NAME@,
        driver_config,
    }
}

fn status_of(name: &str, condition: SandboxCondition, driver_config: Option<DriverConfig>) -> (r:
    SandboxStatus)
    ensures
        r@ == single_status(name@, condition@, config_view(driver_config)),
        r.sandbox_name@ == name@,
        r.driver_name@ == "openshell-driver-vm"@,
        r.conditions@ == seq![condition],
        r.driver_config == driver_config,
{
    let mut conditions: Vec<SandboxCondition> = Vec::new();
    conditions.push(condition);
    let r = SandboxStatus {
        sandbox_name: name.to_owned(),
        agent_pod: String::new(),
        agent_fd: String::new(),
        sandbox_fd: String::new(),
        conditions,
        driver_name: DRIVER_NAME.to_owned(),
        driver_config,
    };
    assert(r@.conditions =~= seq![condition@]);
    r
}

/// The report on a sandbox: what identifies it, its phase and one condition.
pub open spec fn snapshot_of(
    sandbox: SandboxView,
    phase: SandboxPhase,
    condition: ConditionView,
    driver_config: Option<FieldsView>,
) -> SandboxView {
    SandboxView {
        id: sandbox.id,
        name: sandbox.name,
        namespace: sandbox.namespace,
        sandbox_spec: None,
        status: Some(single_status(sandbox.name, condition, driver_config)),
        phase,
    }
}

pub fn sandbox_snapshot(
    sandbox: &Sandbox,
    phase: SandboxPhase,
    condition: SandboxCondition,
    driver_config: Option<DriverConfig>,
) -> (r: Sandbox)
    ensures
        r@ == snapshot_of(sandbox@, phase, condition@, config_view(driver_config)),
        r.id@ == sandbox.id@,
        r.name@ == sandbox.name@,
        r.namespace@ == sandbox.namespace@,
        r.sandbox_spec is None,
        r.phase == phase,
        r.status is Some,
        r.status->0.sandbox_name@ == sandbox.name@,
        r.status->0.driver_name@ == "openshell-driver-vm"@,
        r.status->0.conditions@ == seq![condition],
        r.status->0.driver_config == driver_config,
{
    Sandbox {
        id: sandbox.id.clone(),
        name: sandbox.name.clone(),
        namespace: sandbox.namespace.clone(),
        sandbox_spec: None,
        status: Some(status_of(sandbox.name.as_str(), condition, driver_config)),
        phase,
    }
}

/// What was reported about the machine of a sandbox.
pub open spec fn reported_config(snapshot: SandboxView) -> Option<FieldsView> {
    match snapshot.status {
        Some(status) => status.driver_config,
        None => None,
    }
}

/// The status of a reported sandbox under a new condition: what was reported about
/// its machine stays.
pub fn status_with_condition(snapshot: &Sandbox, condition: SandboxCondition) -> (r: SandboxStatus)
    ensures
        r@ == single_status(snapshot@.name, condition@, reported_config(snapshot@)),
        r.sandbox_name@ == snapshot.name@,
        r.driver_name@ == "openshell-driver-vm"@,
        r.conditions@ == seq![condition],
        snapshot.status is Some ==> config_view(r.driver_config) == config_view(
            snapshot.status->0.driver_config,
        ),
{
    let driver_config = match &snapshot.status {
        Some(status) => copy_config(&status.driver_config),
        None => None,
    };
    status_of(snapshot.name.as_str(), condition, driver_config)
}

/// What the driver reports about a machine, in the order of the field names.
pub open spec fn machine_fields(
    host: Seq<char>,
    port: u16,
    pid: u32,
    rootfs: Seq<char>,
    console_log: Seq<char>,
    state_dir: Seq<char>,
) -> FieldsView {
    seq![
        ("console_log_path"@, FieldView::Text(console_log)),
        ("endpoint_host"@, FieldView::Text(host)),
        ("endpoint_port"@, FieldView::Number(port as u32)),
        ("rootfs_path"@, FieldView::Text(rootfs)),
        ("state_dir"@, FieldView::Text(state_dir)),
        ("vm_pid"@, FieldView::Number(pid)),
    ]
}

pub fn build_driver_config(
    host: &str,
    port: u16,
    pid: u32,
    rootfs: &str,
    console_log: &str,
    state_dir: &str,
) -> (r: DriverConfig)
    ensures
        r@ == machine_fields(host@, port, pid, rootfs@, console_log@, state_dir@),
        r@.len() == 6,
        r@.contains(("endpoint_host"@, FieldView::Text(host@))),
        r@.contains(("endpoint_port"@, FieldView::Number(port as u32))),
        r@.contains(("vm_pid"@, FieldView::Number(pid))),
        r@.contains(("rootfs_path"@, FieldView::Text(rootfs@))),
        r@.contains(("console_log_path"@, FieldView::Text(console_log@))),
        r@.contains(("state_dir"@, FieldView::Text(state_dir@))),
{
    let mut fields: Vec<(String, FieldValue)> = Vec::new();
    fields.push(("console_log_path".to_owned(), FieldValue::Text(console_log.to_owned())));
    fields.push(("endpoint_host".to_owned(), FieldValue::Text(host.to_owned())));
    fields.push(("endpoint_port".to_owned(), FieldValue::Number(port as u32)));
    fields.push(("rootfs_path".to_owned(), FieldValue::Text(rootfs.to_owned())));
    fields.push(("state_dir".to_owned(), FieldValue::Text(state_dir.to_owned())));
    fields.push(("vm_pid".to_owned(), FieldValue::Number(pid)));
    let r = DriverConfig { fields };
    assert(r@ =~= machine_fields(host@, port, pid, rootfs@, console_log@, state_dir@));
    r
}

} // verus!
