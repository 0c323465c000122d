//! Programs: a named, typed instruction array, its submission to the
//! kernel verifier, and its attachment to an observation point.
//!
//! The kernel itself is behind the caller: `load_request` /
//! `attach_probe_request` / `attach_iface_request` say exactly what must
//! be handed to the kernel, and `load_complete` / `attach_complete`
//! record whatever descriptor came back, for every outcome.

use vstd::prelude::*;
use vstd::string::StringSliceAdditionalSpecFns;
use vstd::utf8::encode_utf8;

use crate::error::{LoadError, ParseFault};
use crate::insn::{encode_insns, parse_insns, spec_insns, spec_insns_bytes, Insn};
use crate::wire::{check_no_nul, no_nul, str_eq};

verus! {

/// Program family tag the kernel expects for probe programs.
pub const PROG_TYPE_SOCKET_FILTER: u32 = 1;

/// Program family tag for function entry and return probes.
pub const PROG_TYPE_KPROBE: u32 = 2;

/// Program family tag for express-path network filters.
pub const PROG_TYPE_XDP: u32 = 6;

/// Probe attachment with entry semantics.
pub const PROBE_ATTACH_ENTRY: u32 = 0;

/// Probe attachment with return semantics.
pub const PROBE_ATTACH_RETURN: u32 = 1;

/// The size of the diagnostics buffer handed to the kernel verifier.
pub const LOG_BUF_SIZE: usize = 65536;

/// What a program observes, named after the section category that
/// declares it.
#[derive(Clone, Copy, Debug, PartialEq, Eq, Structural)]
pub enum ProgramKind {
    Kprobe,
    Kretprobe,
    XDP,
    SocketFilter,
}

impl ProgramKind {
    /// The program family this kind is loaded under.
    pub open spec fn spec_prog_type(self) -> u32 {
        match self {
            ProgramKind::Kprobe | ProgramKind::Kretprobe => PROG_TYPE_KPROBE,
            ProgramKind::XDP => PROG_TYPE_XDP,
            ProgramKind::SocketFilter => PROG_TYPE_SOCKET_FILTER,
        }
    }

    pub fn to_prog_type(&self) -> (r: u32)
        ensures
            r == self.spec_prog_type(),
    {
        match self {
            ProgramKind::Kprobe | ProgramKind::Kretprobe => PROG_TYPE_KPROBE,
            ProgramKind::XDP => PROG_TYPE_XDP,
            ProgramKind::SocketFilter => PROG_TYPE_SOCKET_FILTER,
        }
    }

    /// Entry or return semantics for the probe attachment call; only
    /// probe kinds attach that way.
    pub fn to_attach_type(&self) -> (r: u32)
        requires
            self is Kprobe || self is Kretprobe,
        ensures
            self is Kprobe ==> r == PROBE_ATTACH_ENTRY,
            self is Kretprobe ==> r == PROBE_ATTACH_RETURN,
    {
        match self {
            ProgramKind::Kretprobe => PROBE_ATTACH_RETURN,
            _ => PROBE_ATTACH_ENTRY,
        }
    }

    /// Reads a section category name; the reserved program categories
    /// and nothing else.
    pub fn from_section(section: &str) -> (r: Result<ProgramKind, LoadError>)
        ensures
            match r {
                Ok(k) => match k {
                    ProgramKind::Kprobe => section@ == "kprobe"@,
                    ProgramKind::Kretprobe => section@ == "kretprobe"@,
                    ProgramKind::XDP => section@ == "xdp"@,
                    ProgramKind::SocketFilter => section@ == "socketfilter"@,
                },
                Err(LoadError::Section(m)) => {
                    &&& m@ == section@
                    &&& section@ != "kprobe"@
                    &&& section@ != "kretprobe"@
                    &&& section@ != "xdp"@
                    &&& section@ != "socketfilter"@
                },
                Err(_) => false,
            },
    {
        if str_eq(section, "kretprobe") {
            Ok(ProgramKind::Kretprobe)
        } else if str_eq(section, "kprobe") {
            Ok(ProgramKind::Kprobe)
        } else if str_eq(section, "xdp") {
            Ok(ProgramKind::XDP)
        } else if str_eq(section, "socketfilter") {
            Ok(ProgramKind::SocketFilter)
        } else {
            Err(LoadError::Section(section.to_owned()))
        }
    }
}

/// Everything the kernel needs to verify and load one program.
pub struct ProgLoadRequest {
    /// Program family, from the program's kind.
    pub prog_type: u32,
    /// NUL-free display name.
    pub name: Vec<u8>,
    /// The instruction array in wire form.
    pub insns: Vec<u8>,
    /// Number of instructions in `insns`.
    pub insn_count: usize,
    /// NUL-free license text.
    pub license: Vec<u8>,
    /// The kernel-version stamp recorded in the object.
    pub kernel_version: u32,
    /// Size of the verifier-diagnostics buffer the caller must supply.
    pub log_size: usize,
}

/// Everything the kernel needs to attach one loaded program.
pub enum AttachRequest {
    /// Attach to the kernel symbol `symbol` with entry or return
    /// semantics.
    Kprobe { prog_fd: i32, attach_type: u32, symbol: Vec<u8> },
    /// Attach to the named network interface on the express path.
    Xdp { prog_fd: i32, interface: Vec<u8> },
    /// Open a raw socket on the named interface and attach by its
    /// descriptor.
    SocketFilter { prog_fd: i32, interface: Vec<u8> },
}

/// A named, typed sequence of virtual-machine instructions, together
/// with the kernel handles it acquires while loading and attaching.
pub struct Program {
    /// Attachment handle: the observation-point descriptor.
    pub pfd: Option<i32>,
    /// Load handle: the kernel program descriptor.
    pub fd: Option<i32>,
    pub kind: ProgramKind,
    /// Display name, and the target symbol for probe attachment.
    pub name: String,
    /// The instruction array; relocation patches it before load.
    pub code: Vec<Insn>,
    /// Index of the section that declared this program; relocations
    /// address it by this index.
    pub section_index: usize,
    /// The instruction array as it was when the load handle was
    /// acquired.
    pub loaded_code: Ghost<Seq<Insn>>,
}

impl Program {
    /// The structural invariant: an attached program is loaded, a
    /// loaded program's instructions are exactly the ones submitted,
    /// every instruction is well-formed, and kernel handles are
    /// non-negative descriptors.
    pub open spec fn wf(self) -> bool {
        &&& self.pfd is Some ==> self.fd is Some
        &&& self.fd is Some ==> self.code@ == self.loaded_code@
        &&& forall|k: int| 0 <= k < self.code@.len() ==> (#[trigger] self.code@[k]).wf()
        &&& self.fd matches Some(fd) ==> fd >= 0
        &&& self.pfd matches Some(pfd) ==> pfd >= 0
    }

    pub open spec fn spec_is_loaded(self) -> bool {
        self.fd is Some
    }

    pub open spec fn spec_is_attached(self) -> bool {
        self.pfd is Some
    }

    /// Builds a program from a section category, a name and the
    /// section's bytes.
    pub fn new(kind: &str, name: &str, code: &[u8]) -> (r: Result<Program, LoadError>)
        ensures
            match r {
                Ok(p) => {
                    &&& p.wf()
                    &&& !p.spec_is_loaded()
                    &&& !p.spec_is_attached()
                    &&& p.name@ == name@
                    &&& p.section_index == 0
                    &&& code@.len() % 8 == 0
                    &&& p.code@ == spec_insns(code@)
                    &&& match p.kind {
                        ProgramKind::Kprobe => kind@ == "kprobe"@,
                        ProgramKind::Kretprobe => kind@ == "kretprobe"@,
                        ProgramKind::XDP => kind@ == "xdp"@,
                        ProgramKind::SocketFilter => kind@ == "socketfilter"@,
                    }
                },
                Err(LoadError::Section(m)) => {
                    &&& m@ == kind@
                    &&& kind@ != "kprobe"@
                    &&& kind@ != "kretprobe"@
                    &&& kind@ != "xdp"@
                    &&& kind@ != "socketfilter"@
                },
                Err(LoadError::Parse(f)) => f == ParseFault::ProgramCode && code@.len() % 8 != 0,
                Err(_) => false,
            },
    {
        let k = ProgramKind::from_section(kind)?;
        let insns = match parse_insns(code) {
            Ok(v) => v,
            Err(f) => {
                return Err(LoadError::Parse(f));
            },
        };
        Ok(
            Program {
                pfd: None,
                fd: None,
                kind: k,
                name: name.to_owned(),
                code: insns,
                section_index: 0,
                loaded_code: Ghost(Seq::empty()),
            },
        )
    }

    pub fn is_loaded(&self) -> (r: bool)
        ensures
            r == self.spec_is_loaded(),
    {
        self.fd.is_some()
    }

    pub fn is_attached(&self) -> (r: bool)
        ensures
            r == self.spec_is_attached(),
    {
        self.pfd.is_some()
    }

    /// States what must be handed to the kernel verifier for this
    /// program: family from the kind, the instruction array in wire
    /// form, the license and version stamp, and a diagnostics buffer of
    /// at least `LOG_BUF_SIZE` bytes. An embedded NUL in the name or
    /// the license cannot cross into a kernel string and is refused.
    pub fn load_request(&self, kernel_version: u32, license: &String) -> (r: Result<
        ProgLoadRequest,
        LoadError,
    >)
        requires
            self.wf(),
        ensures
            match r {
                Ok(req) => {
                    &&& no_nul(encode_utf8(self.name@))
                    &&& no_nul(encode_utf8(license@))
                    &&& req.prog_type == self.kind.spec_prog_type()
                    &&& req.name@ == encode_utf8(self.name@)
                    &&& req.insns@ == spec_insns_bytes(self.code@)
                    &&& req.insn_count == self.code@.len()
                    &&& req.license@ == encode_utf8(license@)
                    &&& req.kernel_version == kernel_version
                    &&& req.log_size == LOG_BUF_SIZE
                },
                Err(LoadError::StringConversion) => !no_nul(encode_utf8(self.name@)) || !no_nul(
                    encode_utf8(license@),
                ),
                Err(_) => false,
            },
    {
        let name_bytes = vstd::slice::slice_to_vec(self.name.as_str().as_bytes());
        if !check_no_nul(name_bytes.as_slice()) {
            return Err(LoadError::StringConversion);
        }
        let license_bytes = vstd::slice::slice_to_vec(license.as_str().as_bytes());
        if !check_no_nul(license_bytes.as_slice()) {
            return Err(LoadError::StringConversion);
        }
        let insns = encode_insns(&self.code);
        Ok(
            ProgLoadRequest {
                prog_type: self.kind.to_prog_type(),
                name: name_bytes,
                insn_count: self.code.len(),
                insns,
                license: license_bytes,
                kernel_version,
                log_size: LOG_BUF_SIZE,
            },
        )
    }

    /// Records the kernel's answer to a load request. A non-negative
    /// descriptor becomes the load handle; a negative answer leaves the
    /// program untouched and surfaces the verifier log. Loading never
    /// changes the instructions.
    pub fn load_complete(&mut self, fd: i32, log: String) -> (r: Result<i32, LoadError>)
        requires
            old(self).wf(),
        ensures
            final(self).wf(),
            final(self).code@ == old(self).code@,
            final(self).kind == old(self).kind,
            final(self).name@ == old(self).name@,
            final(self).section_index == old(self).section_index,
            final(self).pfd == old(self).pfd,
            match r {
                Ok(got) => {
                    &&& fd >= 0
                    &&& got == fd
                    &&& final(self).fd == Some(fd)
                },
                Err(LoadError::BPF(m)) => {
                    &&& fd < 0
                    &&& m == log
                    &&& *final(self) == *old(self)
                },
                Err(_) => false,
            },
    {
        if fd < 0 {
            Err(LoadError::BPF(log))
        } else {
            self.fd = Some(fd);
            self.loaded_code = Ghost(self.code@);
            Ok(fd)
        }
    }

    /// States the probe attachment for an entry or return probe: the
    /// load handle, the semantics from the kind, and the program's name
    /// as the target kernel symbol.
    pub fn attach_probe_request(&self) -> (r: Result<AttachRequest, LoadError>)
        requires
            self.wf(),
            self.spec_is_loaded(),
            self.kind is Kprobe || self.kind is Kretprobe,
        ensures
            match r {
                Ok(req) => {
                    &&& no_nul(encode_utf8(self.name@))
                    &&& req matches AttachRequest::Kprobe { prog_fd, attach_type, symbol } && {
                        &&& Some(prog_fd) == self.fd
                        &&& attach_type == (if self.kind is Kretprobe {
                            PROBE_ATTACH_RETURN
                        } else {
                            PROBE_ATTACH_ENTRY
                        })
                        &&& symbol@ == encode_utf8(self.name@)
                    }
                },
                Err(LoadError::StringConversion) => !no_nul(encode_utf8(self.name@)),
                Err(_) => false,
            },
    {
        let symbol = vstd::slice::slice_to_vec(self.name.as_str().as_bytes());
        if !check_no_nul(symbol.as_slice()) {
            return Err(LoadError::StringConversion);
        }
        let prog_fd = match self.fd {
            Some(fd) => fd,
            None => {
                return Err(LoadError::StringConversion);  // unreachable: loaded by requires
            },
        };
        Ok(AttachRequest::Kprobe { prog_fd, attach_type: self.kind.to_attach_type(), symbol })
    }

    /// States the attachment for an interface-bound program: the load
    /// handle and the NUL-free interface name.
    pub fn attach_iface_request(&self, interface: &str) -> (r: Result<AttachRequest, LoadError>)
        requires
            self.wf(),
            self.spec_is_loaded(),
            self.kind is XDP || self.kind is SocketFilter,
        ensures
            match r {
                Ok(req) => {
                    &&& no_nul(encode_utf8(interface@))
                    &&& self.kind is XDP ==> (req matches AttachRequest::Xdp {
                        prog_fd,
                        interface: i,
                    } && Some(prog_fd) == self.fd && i@ == encode_utf8(interface@))
                    &&& self.kind is SocketFilter ==> (req matches AttachRequest::SocketFilter {
                        prog_fd,
                        interface: i,
                    } && Some(prog_fd) == self.fd && i@ == encode_utf8(interface@))
                },
                Err(LoadError::StringConversion) => !no_nul(encode_utf8(interface@)),
                Err(_) => false,
            },
    {
        let iface = vstd::slice::slice_to_vec(interface.as_bytes());
        if !check_no_nul(iface.as_slice()) {
            return Err(LoadError::StringConversion);
        }
        let prog_fd = match self.fd {
            Some(fd) => fd,
            None => {
                return Err(LoadError::StringConversion);  // unreachable: loaded by requires
            },
        };
        match self.kind {
            ProgramKind::SocketFilter => Ok(AttachRequest::SocketFilter { prog_fd, interface: iface }),
            _ => Ok(AttachRequest::Xdp { prog_fd, interface: iface }),
        }
    }

    /// Records the kernel's answer to an attach request. A non-negative
    /// descriptor becomes the attach handle; a negative answer leaves
    /// the program untouched.
    pub fn attach_complete(&mut self, pfd: i32, detail: String) -> (r: Result<i32, LoadError>)
        requires
            old(self).wf(),
            old(self).spec_is_loaded(),
        ensures
            final(self).wf(),
            final(self).code@ == old(self).code@,
            final(self).kind == old(self).kind,
            final(self).name@ == old(self).name@,
            final(self).section_index == old(self).section_index,
            final(self).fd == old(self).fd,
            match r {
                Ok(got) => {
                    &&& pfd >= 0
                    &&& got == pfd
                    &&& final(self).pfd == Some(pfd)
                },
                Err(LoadError::BPF(m)) => {
                    &&& pfd < 0
                    &&& m == detail
                    &&& *final(self) == *old(self)
                },
                Err(_) => false,
            },
    {
        if pfd < 0 {
            Err(LoadError::BPF(detail))
        } else {
            self.pfd = Some(pfd);
            Ok(pfd)
        }
    }
}

/// An attached program always holds a load handle.
pub proof fn lemma_attached_implies_loaded(p: Program)
    requires
        p.wf(),
        p.spec_is_attached(),
    ensures
        p.spec_is_loaded(),
{
}

} // verus!
