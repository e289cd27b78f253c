//! The containment backends that the benchmark compares.

use vstd::prelude::*;
use vstd::string::*;
use crate::text::same_text;

verus! {

/// A containment backend.
#[derive(Clone, Copy, Debug, PartialEq, Eq, Structural)]
pub enum ContainmentBackend {
    Hyperlight,
    MicroVm,
    Wslc,
    /// Any backend that the benchmark knows nothing about.
    Other,
}

/// The lowercase form of a text, as `str::to_lowercase` of the standard library gives it.
pub uninterp spec fn lowercase(s: Seq<char>) -> Seq<char>;

/// `str::to_lowercase` of the standard library. Its result is named `lowercase`: it depends on the
/// text alone, by the case mappings of Unicode, which are not spelled out here.
#[verifier::external_body]
pub(crate) fn to_lowercase(s: &str) -> (r: String)
    ensures
        r@ == lowercase(s@),
{
    s.to_lowercase()
}

/// The backend that a lowercase name on the command line stands for.
pub open spec fn backend_named(name: Seq<char>) -> Option<ContainmentBackend> {
    if name == "hyperlight"@ {
        Some(ContainmentBackend::Hyperlight)
    } else if name == "microvm"@ || name == "nanvix"@ {
        Some(ContainmentBackend::MicroVm)
    } else if name == "wslc"@ {
        Some(ContainmentBackend::Wslc)
    } else {
        None
    }
}

/// What a name in lowercase is parsed to: its backend, or a message that repeats the name.
pub open spec fn is_parse_of(r: Result<ContainmentBackend, String>, name: Seq<char>) -> bool {
    match backend_named(name) {
        Some(b) => r == Ok::<ContainmentBackend, String>(b),
        None => r matches Err(m) && m@ == "unknown backend '"@ + name
            + "'; expected: hyperlight, microvm, wslc"@,
    }
}

/// Parses a backend name that is already in lowercase.
pub fn parse_lowercase_backend(name: &str) -> (r: Result<ContainmentBackend, String>)
    ensures
        is_parse_of(r, name@),
{
    if same_text(name, "hyperlight") {
        Ok(ContainmentBackend::Hyperlight)
    } else if same_text(name, "microvm") || same_text(name, "nanvix") {
        Ok(ContainmentBackend::MicroVm)
    } else if same_text(name, "wslc") {
        Ok(ContainmentBackend::Wslc)
    } else {
        let mut m = String::from_str("unknown backend '");
        m.append(name);
        m.append("'; expected: hyperlight, microvm, wslc");
        Err(m)
    }
}

/// Parses a backend name from the command line; upper and lower case are the same.
pub fn parse_backend(s: &str) -> (r: Result<ContainmentBackend, String>)
    ensures
        is_parse_of(r, lowercase(s@)),
{
    let name = to_lowercase(s);
    parse_lowercase_backend(name.as_str())
}

/// The name that reports give to a backend.
pub open spec fn display_name(b: ContainmentBackend) -> &'static str {
    match b {
        ContainmentBackend::Hyperlight => "Hyperlight",
        ContainmentBackend::MicroVm => "NanVix (MicroVM)",
        ContainmentBackend::Wslc => "WSLc",
        ContainmentBackend::Other => "Unknown",
    }
}

/// The name that reports give to a backend.
pub fn backend_display_name(b: &ContainmentBackend) -> (r: &'static str)
    ensures
        r@ == display_name(*b)@,
{
    match b {
        ContainmentBackend::Hyperlight => "Hyperlight",
        ContainmentBackend::MicroVm => "NanVix (MicroVM)",
        ContainmentBackend::Wslc => "WSLc",
        ContainmentBackend::Other => "Unknown",
    }
}

/// The processes outside the benchmark that do a backend's work.
pub open spec fn daemon_names(b: ContainmentBackend) -> Seq<&'static str> {
    match b {
        ContainmentBackend::MicroVm => seq!["nanvixd"],
        ContainmentBackend::Wslc => seq!["wslservice"],
        _ => seq![],
    }
}

/// The names of the external daemon processes of a backend.
pub fn daemon_process_names(b: &ContainmentBackend) -> (r: Vec<&'static str>)
    ensures
        r@ == daemon_names(*b),
{
    match b {
        ContainmentBackend::MicroVm => vec!["nanvixd"],
        ContainmentBackend::Wslc => vec!["wslservice"],
        _ => vec![],
    }
}

/// Whether a backend has an external daemon process.
pub open spec fn has_daemon(b: ContainmentBackend) -> bool {
    daemon_names(b).len() > 0
}

/// Whether the memory of a backend's VM or container is freed after each execution.
pub open spec fn is_ephemeral(b: ContainmentBackend) -> bool {
    b is MicroVm || b is Wslc
}

/// Whether the memory of a backend's VM or container is freed after each execution.
pub fn is_ephemeral_backend(b: &ContainmentBackend) -> (r: bool)
    ensures
        r == is_ephemeral(*b),
{
    matches!(b, ContainmentBackend::MicroVm | ContainmentBackend::Wslc)
}

/// There are just four names for the three backends, and each stands for one of them.
pub proof fn names_of_backends(name: Seq<char>)
    ensures
        backend_named(name) == Some(ContainmentBackend::Hyperlight) <==> name == "hyperlight"@,
        backend_named(name) == Some(ContainmentBackend::MicroVm) <==> name == "microvm"@ || name
            == "nanvix"@,
        backend_named(name) == Some(ContainmentBackend::Wslc) <==> name == "wslc"@,
        backend_named(name) is None <==> name != "hyperlight"@ && name != "microvm"@ && name
            != "nanvix"@ && name != "wslc"@,
{
    reveal_strlit("hyperlight");
    reveal_strlit("microvm");
    reveal_strlit("nanvix");
    reveal_strlit("wslc");
    assert("microvm"@.len() == 7 && "nanvix"@.len() == 6);
    assert("wslc"@.len() == 4 && "hyperlight"@.len() == 10);
}

/// A name is parsed to the backend that it stands for, and any other name fails with a message that
/// repeats it.
pub proof fn parsing_succeeds_just_on_names(r: Result<ContainmentBackend, String>, name: Seq<char>)
    requires
        is_parse_of(r, name),
    ensures
        r is Ok <==> backend_named(name) is Some,
        r matches Ok(b) ==> backend_named(name) == Some(b),
        r matches Err(m) ==> m@ == "unknown backend '"@ + name
            + "'; expected: hyperlight, microvm, wslc"@,
{
}

/// A backend frees its memory after each execution exactly if a daemon does its work: NanVix and
/// WSLc, of which each has one.
pub proof fn ephemeral_backends_have_a_daemon(b: ContainmentBackend)
    ensures
        is_ephemeral(b) <==> b is MicroVm || b is Wslc,
        has_daemon(b) <==> b is MicroVm || b is Wslc,
        daemon_names(b).len() == if b is MicroVm || b is Wslc {
            1nat
        } else {
            0
        },
        b is MicroVm ==> daemon_names(b)[0]@ == "nanvixd"@,
        b is Wslc ==> daemon_names(b)[0]@ == "wslservice"@,
{
}

} // verus!
