//! Configuration of the driver.

use vstd::prelude::*;

use crate::driver::host::{
    ask_host, host_answer, HostDialogue, HostRequest, HostRequestView, HostTranscript,
};
use crate::gpu::checks::name_view;
use crate::paths::{path_with_name, with_file_name};
use crate::text::{glue2, glue3, starts_with};

verus! {

/// The TLS files that machines authenticate to the gateway with.
#[derive(Debug)]
pub struct VmDriverTlsPaths {
    pub ca: String,
    pub cert: String,
    pub key: String,
}

/// The view of [`VmDriverTlsPaths`].
pub struct TlsPathsView {
    pub ca: Seq<char>,
    pub cert: Seq<char>,
    pub key: Seq<char>,
}

impl View for VmDriverTlsPaths {
    type V = TlsPathsView;

    open spec fn view(&self) -> TlsPathsView {
        TlsPathsView { ca: self.ca@, cert: self.cert@, key: self.key@ }
    }
}

/// Configuration of a driver.
#[derive(Debug)]
pub struct VmDriverConfig {
    pub vm_bin: String,
    pub openshell_endpoint: String,
    pub state_dir: String,
    pub ssh_handshake_secret: String,
    pub ssh_handshake_skew_secs: u64,
    pub log_level: String,
    pub krun_log_level: u32,
    pub vcpus: u8,
    pub mem_mib: u32,
    pub tls_ca: Option<String>,
    pub tls_cert: Option<String>,
    pub tls_key: Option<String>,
}

/// The view of a [`VmDriverConfig`].
#[verifier::ext_equal]
pub struct ConfigView {
    pub vm_bin: Seq<char>,
    pub openshell_endpoint: Seq<char>,
    pub state_dir: Seq<char>,
    pub ssh_handshake_secret: Seq<char>,
    pub ssh_handshake_skew_secs: u64,
    pub log_level: Seq<char>,
    pub krun_log_level: u32,
    pub vcpus: u8,
    pub mem_mib: u32,
    pub tls_ca: Option<Seq<char>>,
    pub tls_cert: Option<Seq<char>>,
    pub tls_key: Option<Seq<char>>,
}

impl View for VmDriverConfig {
    type V = ConfigView;

    open spec fn view(&self) -> ConfigView {
        ConfigView {
            vm_bin: self.vm_bin@,
            openshell_endpoint: self.openshell_endpoint@,
            state_dir: self.state_dir@,
            ssh_handshake_secret: self.ssh_handshake_secret@,
            ssh_handshake_skew_secs: self.ssh_handshake_skew_secs,
            log_level: self.log_level@,
            krun_log_level: self.krun_log_level,
            vcpus: self.vcpus,
            mem_mib: self.mem_mib,
            tls_ca: name_view(self.tls_ca),
            tls_cert: name_view(self.tls_cert),
            tls_key: name_view(self.tls_key),
        }
    }
}

pub const DEFAULT_VCPUS: u8 = 2;

pub const DEFAULT_MEM_MIB: u32 = 2048;

impl Default for VmDriverConfig {
    fn default() -> (c: VmDriverConfig)
        ensures
            c@ == (ConfigView {
                vm_bin: "openshell-vm"@,
                openshell_endpoint: Seq::empty(),
                state_dir: "target/openshell-vm-driver"@,
                ssh_handshake_secret: Seq::empty(),
                ssh_handshake_skew_secs: 300,
                log_level: "info"@,
                krun_log_level: 1,
                vcpus: DEFAULT_VCPUS,
                mem_mib: DEFAULT_MEM_MIB,
                tls_ca: None,
                tls_cert: None,
                tls_key: None,
            }),
    {
        VmDriverConfig {
            vm_bin: "openshell-vm".to_owned(),
            openshell_endpoint: String::new(),
            state_dir: "target/openshell-vm-driver".to_owned(),
            ssh_handshake_secret: String::new(),
            ssh_handshake_skew_secs: 300,
            log_level: "info".to_owned(),
            krun_log_level: 1,
            vcpus: DEFAULT_VCPUS,
            mem_mib: DEFAULT_MEM_MIB,
            tls_ca: None,
            tls_cert: None,
            tls_key: None,
        }
    }
}

/// The gateway is reached over TLS.
pub open spec fn needs_tls(endpoint: Seq<char>) -> bool {
    "https://"@.is_prefix_of(endpoint)
}

/// The TLS file that is not there.
pub open spec fn missing_tls(path: Seq<char>) -> Seq<char> {
    "TLS material '"@ + path + "' does not exist or is not a file"@
}

/// What a check of the TLS files ends in: none, all three, or what is wrong.
pub type TlsOutcome = Result<Option<TlsPathsView>, Seq<char>>;

/// Checks that all three TLS files exist, in turn.
pub open spec fn tls_files_run(t: HostTranscript, paths: TlsPathsView) -> (
    HostTranscript,
    TlsOutcome,
) {
    let t = t.ask(HostRequestView::IsFile { path: paths.ca });
    if !host_answer(t).ok {
        (t, Err(missing_tls(paths.ca)))
    } else {
        let t = t.ask(HostRequestView::IsFile { path: paths.cert });
        if !host_answer(t).ok {
            (t, Err(missing_tls(paths.cert)))
        } else {
            let t = t.ask(HostRequestView::IsFile { path: paths.key });
            if !host_answer(t).ok {
                (t, Err(missing_tls(paths.key)))
            } else {
                (t, Ok(Some(paths)))
            }
        }
    }
}

/// The TLS files for the machines: all three have to be given and to exist, or
/// none may be given, and none is not enough for a gateway reached over TLS.
pub open spec fn tls_run(t: HostTranscript, config: ConfigView) -> (HostTranscript, TlsOutcome) {
    match (config.tls_ca, config.tls_cert, config.tls_key) {
        (None, None, None) => if needs_tls(config.openshell_endpoint) {
            (
                t,
                Err(
                    "https:// openshell endpoint requires OPENSHELL_TLS_CA, OPENSHELL_TLS_CERT, and OPENSHELL_TLS_KEY so sandbox VMs can authenticate to the gateway"@,
                ),
            )
        } else {
            (t, Ok(None))
        },
        (None, _, _) => (
            t,
            Err("OPENSHELL_TLS_CA is required when TLS materials are configured"@),
        ),
        (_, None, _) => (
            t,
            Err("OPENSHELL_TLS_CERT is required when TLS materials are configured"@),
        ),
        (_, _, None) => (
            t,
            Err("OPENSHELL_TLS_KEY is required when TLS materials are configured"@),
        ),
        (Some(ca), Some(cert), Some(key)) => tls_files_run(t, TlsPathsView { ca, cert, key }),
    }
}

/// The view of what a check of the TLS files ended in.
pub open spec fn tls_outcome(r: Result<Option<VmDriverTlsPaths>, String>) -> TlsOutcome {
    match r {
        Ok(Some(paths)) => Ok(Some(paths@)),
        Ok(None) => Ok(None),
        Err(message) => Err(message@),
    }
}

impl VmDriverConfig {
    /// Whether the gateway is reached over TLS.
    pub fn requires_tls_materials(&self) -> (r: bool)
        ensures
            r == needs_tls(self@.openshell_endpoint),
    {
        starts_with(self.openshell_endpoint.as_str(), "https://")
    }

    /// The TLS files for the machines, checked.
    pub fn tls_paths(&self, d: &mut HostDialogue) -> (r: Option<
        Result<Option<VmDriverTlsPaths>, String>,
    >)
        ensures
            final(d)@ == tls_run(old(d)@, self@).0,
            r is Some <==> final(d)@.live(),
            r is Some ==> tls_outcome(r->0) == tls_run(old(d)@, self@).1,
    {
        if !d.is_live() {
            return None;
        }
        if self.tls_ca.is_none() && self.tls_cert.is_none() && self.tls_key.is_none() {
            if self.requires_tls_materials() {
                return Some(
                    Err(
                        "https:// openshell endpoint requires OPENSHELL_TLS_CA, OPENSHELL_TLS_CERT, and OPENSHELL_TLS_KEY so sandbox VMs can authenticate to the gateway".to_owned(),
                    ),
                );
            }
            return Some(Ok(None));
        }
        let ca = match &self.tls_ca {
            Some(path) => path.clone(),
            None => {
                return Some(
                    Err(
                        "OPENSHELL_TLS_CA is required when TLS materials are configured".to_owned(),
                    ),
                );
            },
        };
        let cert = match &self.tls_cert {
            Some(path) => path.clone(),
            None => {
                return Some(
                    Err(
                        "OPENSHELL_TLS_CERT is required when TLS materials are configured".to_owned(),
                    ),
                );
            },
        };
        let key = match &self.tls_key {
            Some(path) => path.clone(),
            None => {
                return Some(
                    Err(
                        "OPENSHELL_TLS_KEY is required when TLS materials are configured".to_owned(),
                    ),
                );
            },
        };
        if !ask_host(d, HostRequest::IsFile { path: ca.clone() })?.ok {
            return Some(Err(missing_tls_text(ca.as_str())));
        }
        if !ask_host(d, HostRequest::IsFile { path: cert.clone() })?.ok {
            return Some(Err(missing_tls_text(cert.as_str())));
        }
        if !ask_host(d, HostRequest::IsFile { path: key.clone() })?.ok {
            return Some(Err(missing_tls_text(key.as_str())));
        }
        Some(Ok(Some(VmDriverTlsPaths { ca, cert, key })))
    }
}

fn missing_tls_text(path: &str) -> (s: String)
    ensures
        s@ == missing_tls(path@),
{
    glue3("TLS material '", path, "' does not exist or is not a file")
}

/// The program that runs machines: the one that was given, else the one beside the
/// running program.
pub open spec fn vm_program(
    explicit: Option<Seq<char>>,
    current: Result<Seq<char>, Seq<char>>,
    suffix: Seq<char>,
) -> Result<Seq<char>, Seq<char>> {
    match explicit {
        Some(path) => Ok(path),
        None => match current {
            Err(reason) => Err("failed to resolve current executable: "@ + reason),
            Ok(path) => Ok(path_with_name(path, "openshell-vm"@ + suffix)),
        },
    }
}

/// A path, or why there is none, by their characters.
pub open spec fn path_result(r: Result<String, String>) -> Result<Seq<char>, Seq<char>> {
    match r {
        Ok(path) => Ok(path@),
        Err(reason) => Err(reason@),
    }
}

/// The program that runs machines. `current_exe` is the running program, or why it
/// is not known, and `suffix` is what the names of programs end in on this host.
pub fn resolve_vm_binary(
    explicit: Option<String>,
    current_exe: Result<String, String>,
    suffix: &str,
) -> (r: Result<String, String>)
    ensures
        path_result(r) == vm_program(name_view(explicit), path_result(current_exe), suffix@),
{
    match explicit {
        Some(path) => Ok(path),
        None => match current_exe {
            Err(reason) => Err(glue2("failed to resolve current executable: ", reason.as_str())),
            Ok(path) => {
                let name = glue2("openshell-vm", suffix);
                Ok(with_file_name(path.as_str(), name.as_str()))
            },
        },
    }
}

} // verus!
