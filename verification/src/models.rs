use vstd::prelude::*;
use vstd::string::StringExecFns;

verus! {

/// Lifecycle state of a declared VM.
#[derive(Clone, Copy, Debug, PartialEq, Eq, Structural)]
pub enum VmState {
    Created,
    Running,
    Paused,
    Stopped,
}

impl VmState {
    /// Wire name of the state, as it appears in API responses and in the
    /// persisted catalog record.
    pub open spec fn spec_str(self) -> Seq<char> {
        match self {
            VmState::Created => "created"@,
            VmState::Running => "running"@,
            VmState::Paused => "paused"@,
            VmState::Stopped => "stopped"@,
        }
    }

    pub fn as_str(&self) -> (r: &'static str)
        ensures
            r@ == self.spec_str(),
    {
        match self {
            VmState::Created => "created",
            VmState::Running => "running",
            VmState::Paused => "paused",
            VmState::Stopped => "stopped",
        }
    }

    /// Capitalized human label for the state.
    pub open spec fn spec_display(self) -> Seq<char> {
        match self {
            VmState::Created => "Created"@,
            VmState::Running => "Running"@,
            VmState::Paused => "Paused"@,
            VmState::Stopped => "Stopped"@,
        }
    }

    pub fn display(&self) -> (r: &'static str)
        ensures
            r@ == self.spec_display(),
    {
        match self {
            VmState::Created => "Created",
            VmState::Running => "Running",
            VmState::Paused => "Paused",
            VmState::Stopped => "Stopped",
        }
    }

    /// Style class used by dashboards to color a state badge.
    pub open spec fn spec_css_class(self) -> Seq<char> {
        match self {
            VmState::Running => "bg-green-500"@,
            VmState::Stopped => "bg-red-500"@,
            VmState::Paused => "bg-yellow-500"@,
            VmState::Created => "bg-blue-500"@,
        }
    }

    pub fn css_class(&self) -> (r: &'static str)
        ensures
            r@ == self.spec_css_class(),
    {
        match self {
            VmState::Running => "bg-green-500",
            VmState::Stopped => "bg-red-500",
            VmState::Paused => "bg-yellow-500",
            VmState::Created => "bg-blue-500",
        }
    }
}

/// Kernel command line used when a create request does not name one.
pub const DEFAULT_KERNEL_ARGS: &'static str = "console=ttyS0 reboot=k panic=1 pci=off";

/// Machine shape of a VM: how many vCPUs, how much memory, and what to boot.
#[derive(Debug)]
pub struct VmConfig {
    pub vcpu_count: u8,
    pub mem_size_mib: u32,
    pub kernel_image_path: String,
    pub rootfs_path: String,
    pub kernel_args: String,
}

/// Mathematical image of a `VmConfig`.
pub ghost struct VmConfigView {
    pub vcpu_count: u8,
    pub mem_size_mib: u32,
    pub kernel_image_path: Seq<char>,
    pub rootfs_path: Seq<char>,
    pub kernel_args: Seq<char>,
}

impl Clone for VmConfig {
    fn clone(&self) -> (r: VmConfig)
        ensures
            r@ == self@,
    {
        VmConfig {
            vcpu_count: self.vcpu_count,
            mem_size_mib: self.mem_size_mib,
            kernel_image_path: self.kernel_image_path.clone(),
            rootfs_path: self.rootfs_path.clone(),
            kernel_args: self.kernel_args.clone(),
        }
    }
}

impl VmConfigView {
    /// The declared bounds of a configuration: one to thirty-two vCPUs and
    /// at least 128 MiB of memory.
    pub open spec fn wf(self) -> bool {
        &&& 1 <= self.vcpu_count <= 32
        &&& self.mem_size_mib >= 128
    }
}

impl View for VmConfig {
    type V = VmConfigView;

    open spec fn view(&self) -> VmConfigView {
        VmConfigView {
            vcpu_count: self.vcpu_count,
            mem_size_mib: self.mem_size_mib,
            kernel_image_path: self.kernel_image_path@,
            rootfs_path: self.rootfs_path@,
            kernel_args: self.kernel_args@,
        }
    }
}

/// The derived path triple is a pure function of the VM id, so a manager that
/// restarts can rebind the same control socket, console socket and log file.
pub open spec fn spec_socket_path(id: Seq<char>) -> Seq<char> {
    "/tmp/firecracker-"@ + id + ".sock"@
}

pub open spec fn spec_console_socket_path(id: Seq<char>) -> Seq<char> {
    "/tmp/firecracker-"@ + id + ".console.sock"@
}

pub open spec fn spec_log_path(id: Seq<char>) -> Seq<char> {
    "/tmp/firecracker-"@ + id + ".log"@
}

/// Builds `/tmp/firecracker-<id><suffix>`.
fn derived_path(id: &str, suffix: &str) -> (r: String)
    ensures
        r@ == "/tmp/firecracker-"@ + id@ + suffix@,
{
    let mut s = String::from_str("/tmp/firecracker-");
    s.append(id);
    s.append(suffix);
    s
}

/// A declared VM: the record persisted in the catalog and held in memory.
#[derive(Debug)]
pub struct Vm {
    pub id: String,
    pub name: String,
    pub state: VmState,
    pub config: VmConfig,
    pub socket_path: String,
    pub console_socket_path: String,
    pub log_path: String,
}

/// Mathematical image of a `Vm` record.
pub ghost struct VmView {
    pub id: Seq<char>,
    pub name: Seq<char>,
    pub state: VmState,
    pub config: VmConfigView,
    pub socket_path: Seq<char>,
    pub console_socket_path: Seq<char>,
    pub log_path: Seq<char>,
}

impl Clone for Vm {
    fn clone(&self) -> (r: Vm)
        ensures
            r@ == self@,
    {
        Vm {
            id: self.id.clone(),
            name: self.name.clone(),
            state: self.state,
            config: self.config.clone(),
            socket_path: self.socket_path.clone(),
            console_socket_path: self.console_socket_path.clone(),
            log_path: self.log_path.clone(),
        }
    }
}

impl View for Vm {
    type V = VmView;

    open spec fn view(&self) -> VmView {
        VmView {
            id: self.id@,
            name: self.name@,
            state: self.state,
            config: self.config@,
            socket_path: self.socket_path@,
            console_socket_path: self.console_socket_path@,
            log_path: self.log_path@,
        }
    }
}

impl VmView {
    /// The same record with the state replaced; everything else is unchanged.
    pub open spec fn with_state(self, st: VmState) -> VmView {
        VmView { state: st, ..self }
    }

    /// The path triple is derived from the id.
    pub open spec fn paths_derived(self) -> bool {
        &&& self.socket_path == spec_socket_path(self.id)
        &&& self.console_socket_path == spec_console_socket_path(self.id)
        &&& self.log_path == spec_log_path(self.id)
    }
}

impl Vm {
    /// A fresh record in state `Created`, with its path triple derived from
    /// the id.
    pub fn new(id: String, name: String, config: VmConfig) -> (r: Vm)
        ensures
            r@.id == id@,
            r@.name == name@,
            r@.state == VmState::Created,
            r@.config == config@,
            r@.paths_derived(),
    {
        let socket_path = derived_path(id.as_str(), ".sock");
        let console_socket_path = derived_path(id.as_str(), ".console.sock");
        let log_path = derived_path(id.as_str(), ".log");
        Vm { id, name, state: VmState::Created, config, socket_path, console_socket_path, log_path }
    }
}

/// Two distinct ids never derive the same path, so no two records share a
/// control socket, console socket or log file.
pub proof fn lemma_derived_paths_injective(id1: Seq<char>, id2: Seq<char>)
    ensures
        spec_socket_path(id1) == spec_socket_path(id2) ==> id1 == id2,
        spec_console_socket_path(id1) == spec_console_socket_path(id2) ==> id1 == id2,
        spec_log_path(id1) == spec_log_path(id2) ==> id1 == id2,
{
    let p = "/tmp/firecracker-"@;
    if spec_socket_path(id1) == spec_socket_path(id2) {
        assert((p + id1 + ".sock"@).len() == (p + id2 + ".sock"@).len());
        assert(id1.len() == id2.len());
        assert(id1 =~= id2) by {
            assert forall|i: int| 0 <= i < id1.len() implies id1[i] == id2[i] by {
                assert(spec_socket_path(id1)[p.len() + i] == id1[i]);
                assert(spec_socket_path(id2)[p.len() + i] == id2[i]);
            }
        }
    }
    if spec_console_socket_path(id1) == spec_console_socket_path(id2) {
        assert((p + id1 + ".console.sock"@).len() == (p + id2 + ".console.sock"@).len());
        assert(id1.len() == id2.len());
        assert(id1 =~= id2) by {
            assert forall|i: int| 0 <= i < id1.len() implies id1[i] == id2[i] by {
                assert(spec_console_socket_path(id1)[p.len() + i] == id1[i]);
                assert(spec_console_socket_path(id2)[p.len() + i] == id2[i]);
            }
        }
    }
    if spec_log_path(id1) == spec_log_path(id2) {
        assert((p + id1 + ".log"@).len() == (p + id2 + ".log"@).len());
        assert(id1.len() == id2.len());
        assert(id1 =~= id2) by {
            assert forall|i: int| 0 <= i < id1.len() implies id1[i] == id2[i] by {
                assert(spec_log_path(id1)[p.len() + i] == id1[i]);
                assert(spec_log_path(id2)[p.len() + i] == id2[i]);
            }
        }
    }
}

/// Body of a create request, before defaults are applied.
#[derive(Clone, Debug)]
pub struct CreateVmRequest {
    pub name: String,
    pub vcpu_count: u8,
    pub mem_size_mib: u32,
    pub kernel_image_path: String,
    pub rootfs_path: String,
    pub kernel_args: Option<String>,
}

impl CreateVmRequest {
    /// The configuration this request declares; a missing `kernel_args`
    /// falls back to `DEFAULT_KERNEL_ARGS`.
    pub fn to_config(self) -> (r: VmConfig)
        ensures
            r@.vcpu_count == self.vcpu_count,
            r@.mem_size_mib == self.mem_size_mib,
            r@.kernel_image_path == self.kernel_image_path@,
            r@.rootfs_path == self.rootfs_path@,
            r@.kernel_args == match self.kernel_args {
                Some(a) => a@,
                None => DEFAULT_KERNEL_ARGS@,
            },
    {
        let kernel_args = match self.kernel_args {
            Some(a) => a,
            None => String::from_str(DEFAULT_KERNEL_ARGS),
        };
        VmConfig {
            vcpu_count: self.vcpu_count,
            mem_size_mib: self.mem_size_mib,
            kernel_image_path: self.kernel_image_path,
            rootfs_path: self.rootfs_path,
            kernel_args,
        }
    }
}

/// What the API returns for one VM.
#[derive(Clone, Debug)]
pub struct VmResponse {
    pub id: String,
    pub name: String,
    pub state: VmState,
    pub vcpu_count: u8,
    pub mem_size_mib: u32,
    pub console_socket_path: String,
    pub log_path: String,
}

impl VmResponse {
    pub fn of_vm(vm: &Vm) -> (r: VmResponse)
        ensures
            r.id@ == vm@.id,
            r.name@ == vm@.name,
            r.state == vm@.state,
            r.vcpu_count == vm@.config.vcpu_count,
            r.mem_size_mib == vm@.config.mem_size_mib,
            r.console_socket_path@ == vm@.console_socket_path,
            r.log_path@ == vm@.log_path,
    {
        VmResponse {
            id: vm.id.clone(),
            name: vm.name.clone(),
            state: vm.state,
            vcpu_count: vm.config.vcpu_count,
            mem_size_mib: vm.config.mem_size_mib,
            console_socket_path: vm.console_socket_path.clone(),
            log_path: vm.log_path.clone(),
        }
    }
}

/// Error body of the API: a stable tag and a human-readable message.
#[derive(Clone, Debug)]
pub struct ApiError {
    pub error: String,
    pub message: String,
}

impl ApiError {
    pub fn new(error: &str, message: String) -> (r: ApiError)
        ensures
            r.error@ == error@,
            r.message@ == message@,
    {
        ApiError { error: String::from_str(error), message }
    }
}

/// Body of the health endpoint.
#[derive(Clone, Debug)]
pub struct HealthResponse {
    pub status: String,
}

impl HealthResponse {
    pub fn ok() -> (r: HealthResponse)
        ensures
            r.status@ == "ok"@,
    {
        HealthResponse { status: String::from_str("ok") }
    }
}

/// What the console endpoint reports: where to attach and whether the
/// console is currently live.
#[derive(Clone, Debug)]
pub struct ConsoleInfo {
    pub vm_id: String,
    pub console_socket_path: String,
    pub log_path: String,
    pub available: bool,
}

impl ConsoleInfo {
    /// The console is available exactly when the VM is running.
    pub fn of_vm(vm: &Vm) -> (r: ConsoleInfo)
        ensures
            r.vm_id@ == vm@.id,
            r.console_socket_path@ == vm@.console_socket_path,
            r.log_path@ == vm@.log_path,
            r.available == (vm@.state == VmState::Running),
    {
        ConsoleInfo {
            vm_id: vm.id.clone(),
            console_socket_path: vm.console_socket_path.clone(),
            log_path: vm.log_path.clone(),
            available: matches!(vm.state, VmState::Running),
        }
    }
}

} // verus!
