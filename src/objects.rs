//! The VM service's objects as the driver receives them. Most are carried
//! along unread; the driver reads the views' isolates, the created
//! filesystem's URI and whether a reload succeeded.

use vstd::prelude::*;

verus! {

pub struct RegisterResult {
    pub success: bool,
}

pub struct Version {
    /// Incremented when the protocol changes in a potentially incompatible way.
    pub major: i64,
    /// Incremented when the protocol changes in a backwards compatible way.
    pub minor: i64,
}

pub struct ReloadReport {
    /// Whether the hot reload was successful.
    pub success: bool,
}

pub struct DevFSListResult {
    pub fs_names: Vec<String>,
}

pub struct VM {
    /// Word length on the target architecture (e.g. 32, 64).
    pub architecture_bits: i64,
    /// The CPU code is generated for.
    pub target_cpu: String,
    /// The CPU the VM actually runs on.
    pub host_cpu: String,
    /// The VM's version string.
    pub version: String,
    /// The process id of the VM.
    pub pid: i64,
    /// When the VM started, in milliseconds since the epoch.
    pub start_time: i64,
    /// The isolates running in the VM.
    pub isolates: Vec<IsolateRef>,
}

pub struct IsolateRef {
    /// The id passed to the getIsolate RPC to load this isolate.
    pub id: String,
    /// A numeric id for this isolate, written as a string. Unique.
    pub number: String,
    /// A name for this isolate. Not guaranteed to be unique.
    pub name: String,
}

/// The isolate of a view, whose number is an integer.
pub struct IsolateRef2 {
    pub id: String,
    pub number: i32,
    pub name: String,
}

pub struct Isolate {
    pub id: String,
    pub number: i32,
    pub name: String,
    pub start_time: i64,
    pub runnable: bool,
    pub live_ports: i64,
    pub pause_on_exit: bool,
    pub pause_event: Event,
    pub root_lib: Option<LibraryRef>,
    pub libraries: Vec<LibraryRef>,
    pub breakpoints: Vec<Breakpoint>,
    pub error: Option<IsolateError>,
    pub exception_pause_mode: ExceptionPauseMode,
    pub extension_rpcs: Option<Vec<String>>,
}

pub struct LibraryRef {
    pub name: String,
    pub uri: String,
}

pub struct Library {
    pub name: String,
    pub uri: String,
    pub debuggable: bool,
    pub dependencies: Vec<LibraryDependency>,
    pub scripts: Vec<ScriptRef>,
    pub variables: Vec<FieldRef>,
    pub functions: Vec<FunctionRef>,
    pub classes: Vec<ClassRef>,
}

pub struct FlutterViewList {
    pub views: Vec<FlutterView>,
}

pub struct DevFSCreatedResponse {
    /// The root URI of the created filesystem.
    pub uri: String,
}

pub struct FlutterView {
    pub id: String,
    /// The main UI isolate.
    pub isolate: IsolateRef2,
}

pub struct LibraryDependency {}

pub struct ScriptRef {}

pub struct FieldRef {}

pub struct FunctionRef {}

pub struct ClassRef {}

pub struct ExceptionPauseMode {}

pub struct Breakpoint {}

pub struct Event {}

pub struct IsolateError {}

impl FlutterViewList {
    /// The ids of the views' isolates, in order: the targets of a reload.
    pub fn isolate_ids(&self) -> (r: Vec<String>)
        ensures
            r@.len() == self.views@.len(),
            forall|i: int| 0 <= i < r@.len() ==> #[trigger] r@[i]@ == self.views@[i].isolate.id@,
    {
        let mut r: Vec<String> = Vec::new();
        let mut i: usize = 0;
        while i < self.views.len()
            invariant
                i <= self.views@.len(),
                r@.len() == i,
                forall|j: int| 0 <= j < i ==> #[trigger] r@[j]@ == self.views@[j].isolate.id@,
            decreases self.views@.len() - i,
        {
            r.push(self.views[i].isolate.id.clone());
            i = i + 1;
        }
        r
    }
}

} // verus!
