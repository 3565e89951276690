//! The resolved installation record.
//!
//! One record per immediate subdirectory of the logs root. The caller
//! enumerates those subdirectories and reads the two files involved (the
//! vmoptions file, and the port file the vmoptions name); resolution
//! itself — path derivation, normalization, line filtering, port parsing —
//! is pure and happens here.

use vstd::prelude::*;
use crate::chars::trim;
use crate::numbers::{parse_u16, parse_port_value};
use crate::paths::{
    Platform, spec_config_dir, spec_instance_logs_dir, spec_install_candidates,
    spec_choose_install, install_candidate_count, find_ide_config_dir, instance_logs_dir,
    install_dir_candidates, choose_install_dir,
};
use crate::product::{product_identity, get_product_info};
use crate::vmoptions::{kept_lines, port_file_of, filter_vmoptions, get_port_file_path};
use vstd::string::*;

verus! {

/// One discovered installation, keyed by its raw versioned directory name.
#[derive(Debug, Clone)]
pub struct InstalledInstance {
    /// The raw directory name under the logs root.
    pub name: String,
    /// Where the instance writes its logs.
    pub logs_dir: String,
    /// Where the product is (or would be) installed.
    pub install_dir: String,
    /// The per-product configuration directory.
    pub config_dir: String,
    /// The kept lines of the vmoptions file, in file order; `None` when the
    /// file is absent or unreadable.
    pub vm_options: Option<Vec<String>>,
    /// The advertised notification port, when the vmoptions name a port
    /// file whose content parses as one.
    pub notification_port: Option<u16>,
}

/// The vmoptions derived from the file content the caller observed.
pub open spec fn spec_vm_options(vmoptions_content: Option<Seq<char>>) -> Option<Seq<Seq<char>>> {
    match vmoptions_content {
        Some(c) => Some(kept_lines(c)),
        None => None,
    }
}

/// The notification port derived from the observed vmoptions file content
/// and the observed port file content: present only when the kept
/// vmoptions name a port file and its content parses as a 16-bit port.
pub open spec fn spec_port(
    vmoptions_content: Option<Seq<char>>,
    port_file_content: Option<Seq<char>>,
) -> Option<u16> {
    match vmoptions_content {
        Some(c) => match port_file_of(kept_lines(c)) {
            Some(_) => match port_file_content {
                Some(pc) => parse_u16(trim(pc)),
                None => None,
            },
            None => None,
        },
        None => None,
    }
}

/// A notification port is reported only when the vmoptions were read, they
/// name a port file, that file was read, and its trimmed content parses as
/// a 16-bit port — and then the port is exactly the parsed value.
pub proof fn lemma_port_needs_directive(
    vmoptions_content: Option<Seq<char>>,
    port_file_content: Option<Seq<char>>,
)
    ensures
        spec_port(vmoptions_content, port_file_content) is Some ==> {
            &&& vmoptions_content is Some
            &&& port_file_of(kept_lines(vmoptions_content->0)) is Some
            &&& port_file_content is Some
            &&& spec_port(vmoptions_content, port_file_content) == parse_u16(
                trim(port_file_content->0),
            )
        },
{
}

/// The fully resolved record for one discovery candidate.
///
/// `base_path` is the logs root, `name` the candidate's directory name.
/// `install_exists` holds one existence flag per installation-directory
/// candidate, in candidate order; `vmoptions_content` is the content of
/// the vmoptions file when it was present and readable, and
/// `port_file_content` the content of the file named by the
/// notification-port directive, when the directive was present and the
/// file readable.
pub fn resolve_instance(
    platform: Platform,
    home: Option<&str>,
    base_path: &str,
    name: &str,
    install_exists: &Vec<bool>,
    vmoptions_content: Option<&str>,
    port_file_content: Option<&str>,
) -> (r: InstalledInstance)
    requires
        install_exists.len() == install_candidate_count(platform),
    ensures
        r.name@ == name@,
        r.logs_dir@ == spec_instance_logs_dir(platform, base_path@, name@),
        r.config_dir@ == spec_config_dir(platform, home.deep_view(), name@),
        r.install_dir@ == spec_choose_install(
            spec_install_candidates(platform, home.deep_view(), product_identity(name@).0),
            install_exists@,
        ),
        r.vm_options.deep_view() == spec_vm_options(vmoptions_content.deep_view()),
        r.notification_port == spec_port(
            vmoptions_content.deep_view(),
            port_file_content.deep_view(),
        ),
{
    let info = get_product_info(name);
    let logs_dir = instance_logs_dir(platform, base_path, name);
    let config_dir = find_ide_config_dir(platform, home, name);
    let candidates = install_dir_candidates(platform, home, info.0.as_str());
    let install_dir = choose_install_dir(&candidates, install_exists);
    let vm_options: Option<Vec<String>> = match vmoptions_content {
        Some(c) => Some(filter_vmoptions(c)),
        None => None,
    };
    let notification_port: Option<u16> = match &vm_options {
        Some(opts) => match get_port_file_path(opts) {
            Some(_) => match port_file_content {
                Some(pc) => parse_port_value(pc),
                None => None,
            },
            None => None,
        },
        None => None,
    };
    InstalledInstance {
        name: String::from_str(name),
        logs_dir,
        install_dir,
        config_dir,
        vm_options,
        notification_port,
    }
}

/// What the caller observed on disk for one discovery candidate.
pub struct CandidateObservation {
    /// The candidate subdirectory's name.
    pub name: String,
    /// One existence flag per installation-directory candidate, in order.
    pub install_exists: Vec<bool>,
    /// The vmoptions file content, when present and readable.
    pub vmoptions_content: Option<String>,
    /// The content of the file named by the notification-port directive,
    /// when that file was present and readable.
    pub port_file_content: Option<String>,
}

/// Whether `r` is the resolved record for the observation `ob`.
pub open spec fn resolves(
    platform: Platform,
    home: Option<Seq<char>>,
    base_path: Seq<char>,
    ob: CandidateObservation,
    r: InstalledInstance,
) -> bool {
    &&& r.name@ == ob.name@
    &&& r.logs_dir@ == spec_instance_logs_dir(platform, base_path, ob.name@)
    &&& r.config_dir@ == spec_config_dir(platform, home, ob.name@)
    &&& r.install_dir@ == spec_choose_install(
        spec_install_candidates(platform, home, product_identity(ob.name@).0),
        ob.install_exists@,
    )
    &&& r.vm_options.deep_view() == spec_vm_options(ob.vmoptions_content.deep_view())
    &&& r.notification_port == spec_port(
        ob.vmoptions_content.deep_view(),
        ob.port_file_content.deep_view(),
    )
}

/// The resolved records for one whole scan: one record per observed
/// candidate, in scan order, with no additions and no omissions — in
/// particular, an empty candidate list (a logs root that does not exist)
/// resolves to an empty instance set.
pub fn resolve_all(
    platform: Platform,
    home: Option<&str>,
    base_path: &str,
    observations: &Vec<CandidateObservation>,
) -> (r: Vec<InstalledInstance>)
    requires
        forall|i: int| 0 <= i < observations@.len() ==> (#[trigger] observations@[i])
            .install_exists@.len() == install_candidate_count(platform),
    ensures
        r@.len() == observations@.len(),
        forall|i: int| 0 <= i < r@.len() ==> resolves(
            platform,
            home.deep_view(),
            base_path@,
            observations@[i],
            #[trigger] r@[i],
        ),
{
    let n = observations.len();
    let mut out: Vec<InstalledInstance> = Vec::new();
    let mut i: usize = 0;
    while i < n
        invariant
            0 <= i <= n,
            n == observations.len(),
            forall|k: int| 0 <= k < observations@.len() ==> (#[trigger] observations@[k])
                .install_exists@.len() == install_candidate_count(platform),
            out@.len() == i,
            forall|k: int| 0 <= k < i ==> resolves(
                platform,
                home.deep_view(),
                base_path@,
                observations@[k],
                #[trigger] out@[k],
            ),
        decreases n - i,
    {
        let ob = &observations[i];
        let vc: Option<&str> = match &ob.vmoptions_content {
            Some(c) => Some(c.as_str()),
            None => None,
        };
        let pc: Option<&str> = match &ob.port_file_content {
            Some(c) => Some(c.as_str()),
            None => None,
        };
        proof {
            assert(vc.deep_view() == ob.vmoptions_content.deep_view());
            assert(pc.deep_view() == ob.port_file_content.deep_view());
        }
        let inst = resolve_instance(
            platform,
            home,
            base_path,
            ob.name.as_str(),
            &ob.install_exists,
            vc,
            pc,
        );
        out.push(inst);
        i = i + 1;
    }
    out
}

} // verus!
