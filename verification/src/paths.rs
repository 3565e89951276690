//! Platform path rules.
//!
//! Each supported platform fixes where the product family keeps its logs,
//! its per-product configuration directories and its installations. The
//! rules are pure string functions; the user's home directory and the
//! Windows `LOCALAPPDATA` value are passed in by the caller, and a small
//! trusted wrapper around the `home` crate supplies the home directory for
//! the one function that resolves the logs root itself.

use vstd::prelude::*;
use vstd::string::*;
use crate::chars::{has_suffix, str_has_suffix};

verus! {

/// A recognized operating system family; everything that is neither the
/// macOS nor the Windows target follows the Linux rules.
#[derive(Clone, Copy, PartialEq, Eq, Structural, Debug)]
pub enum Platform {
    MacOs,
    Windows,
    Linux,
}

/// The home directory when one is known, else the empty string, as path
/// derivation falls back on it.
pub open spec fn home_or_empty(home: Option<Seq<char>>) -> Seq<char> {
    match home {
        Some(h) => h,
        None => Seq::<char>::empty(),
    }
}

/// The root directory that holds one log subdirectory per installed
/// product, when it can be determined.
pub open spec fn spec_logs_root(
    platform: Platform,
    home: Option<Seq<char>>,
    local_app_data: Option<Seq<char>>,
) -> Option<Seq<char>> {
    match platform {
        Platform::MacOs => match home {
            Some(h) => Some(h + "/Library/Logs/JetBrains"@),
            None => None,
        },
        Platform::Windows => match local_app_data {
            Some(p) => Some(p + "/JetBrains"@),
            None => None,
        },
        Platform::Linux => match home {
            Some(h) => Some(h + "/.cache/JetBrains"@),
            None => None,
        },
    }
}

/// The per-product configuration directory for the raw directory name
/// `name`.
pub open spec fn spec_config_dir(
    platform: Platform,
    home: Option<Seq<char>>,
    name: Seq<char>,
) -> Seq<char> {
    match platform {
        Platform::MacOs => home_or_empty(home) + "/Library/Application Support/JetBrains/"@
            + name,
        Platform::Windows => "%APPDATA%/JetBrains/"@ + name,
        Platform::Linux => home_or_empty(home) + "/.config/JetBrains/"@ + name,
    }
}

/// The application bundle name for a display name: `.app` is appended
/// unless already present.
pub open spec fn spec_bundle_name(app_name: Seq<char>) -> Seq<char> {
    if has_suffix(app_name, ".app"@) {
        app_name
    } else {
        app_name + ".app"@
    }
}

/// The ordered installation-directory candidates for the display name
/// `app_name`: two on macOS (system-wide first, then per-user), one
/// elsewhere.
pub open spec fn spec_install_candidates(
    platform: Platform,
    home: Option<Seq<char>>,
    app_name: Seq<char>,
) -> Seq<Seq<char>> {
    match platform {
        Platform::MacOs => seq![
            "/Applications/"@ + spec_bundle_name(app_name),
            home_or_empty(home) + "/Applications/"@ + spec_bundle_name(app_name),
        ],
        Platform::Windows => seq!["C:\\Program Files\\JetBrains\\"@ + app_name],
        Platform::Linux => seq!["/opt/jetbrains/"@ + app_name],
    }
}

/// How many installation-directory candidates the platform has.
pub open spec fn install_candidate_count(platform: Platform) -> int {
    match platform {
        Platform::MacOs => 2,
        Platform::Windows => 1,
        Platform::Linux => 1,
    }
}

/// The logs directory of the instance named `name` under the logs root
/// `base`: the versioned directory itself on macOS, its `log` subdirectory
/// elsewhere.
pub open spec fn spec_instance_logs_dir(
    platform: Platform,
    base: Seq<char>,
    name: Seq<char>,
) -> Seq<char> {
    match platform {
        Platform::MacOs => base + "/"@ + name,
        Platform::Windows => base + "/"@ + name + "/log"@,
        Platform::Linux => base + "/"@ + name + "/log"@,
    }
}

/// The vmoptions file that the product with short code `code` reads in the
/// configuration directory `config_dir`.
pub open spec fn spec_vmoptions_file_path(config_dir: Seq<char>, code: Seq<char>) -> Seq<char> {
    config_dir + "/"@ + code + ".vmoptions"@
}

/// The primary log file whose presence marks an instance as actually used.
pub open spec fn spec_log_marker_path(logs_dir: Seq<char>) -> Seq<char> {
    logs_dir + "/idea.log"@
}

/// `a` followed by `b`.
fn concat2(a: &str, b: &str) -> (r: String)
    ensures
        r@ == a@ + b@,
{
    let mut s = String::from_str(a);
    s.append(b);
    s
}

/// `a` followed by `b` followed by `c`.
fn concat3(a: &str, b: &str, c: &str) -> (r: String)
    ensures
        r@ == a@ + b@ + c@,
{
    let mut s = String::from_str(a);
    s.append(b);
    s.append(c);
    s
}

/// `a` followed by `b`, `c` and `d`.
fn concat4(a: &str, b: &str, c: &str, d: &str) -> (r: String)
    ensures
        r@ == a@ + b@ + c@ + d@,
{
    let mut s = String::from_str(a);
    s.append(b);
    s.append(c);
    s.append(d);
    s
}

/// The logs root derived from the platform and the supplied home and
/// `LOCALAPPDATA` values; `None` when the platform's source of truth is
/// absent.
pub fn logs_root_path(
    platform: Platform,
    home: Option<&str>,
    local_app_data: Option<&str>,
) -> (r: Option<String>)
    ensures
        r.deep_view() == spec_logs_root(platform, home.deep_view(), local_app_data.deep_view()),
{
    match platform {
        Platform::MacOs => match home {
            Some(h) => Some(concat2(h, "/Library/Logs/JetBrains")),
            None => None,
        },
        Platform::Windows => match local_app_data {
            Some(p) => Some(concat2(p, "/JetBrains")),
            None => None,
        },
        Platform::Linux => match home {
            Some(h) => Some(concat2(h, "/.cache/JetBrains")),
            None => None,
        },
    }
}

/// Relies on `home::home_dir`: the user's home directory as the `home`
/// crate reads it from the environment. The result depends on the
/// environment alone, so nothing is promised of its value; a home that is
/// not valid UTF-8 counts as undetermined.
#[verifier::external_body]
fn home_dir_string() -> (r: Option<String>) {
    home::home_dir().and_then(|p| p.into_os_string().into_string().ok())
}

/// The logs root for the running environment: the home directory is taken
/// from the environment, so the result is the platform's logs root for
/// some home value.
pub fn get_jetbrains_base_path(platform: Platform, local_app_data: Option<&str>) -> (r: Option<
    String,
>)
    ensures
        exists|h: Option<Seq<char>>|
            r.deep_view() == spec_logs_root(platform, h, local_app_data.deep_view()),
{
    let hm = home_dir_string();
    let r = match &hm {
        Some(s) => logs_root_path(platform, Some(s.as_str()), local_app_data),
        None => logs_root_path(platform, None, local_app_data),
    };
    proof {
        assert(r.deep_view() == spec_logs_root(
            platform,
            hm.deep_view(),
            local_app_data.deep_view(),
        ));
    }
    r
}

/// The per-product configuration directory for the raw directory name
/// `name`.
pub fn find_ide_config_dir(platform: Platform, home: Option<&str>, name: &str) -> (r: String)
    ensures
        r@ == spec_config_dir(platform, home.deep_view(), name@),
{
    let h = match home {
        Some(h) => h,
        None => "",
    };
    proof {
        reveal_strlit("");
        assert(h@ =~= home_or_empty(home.deep_view()));
    }
    match platform {
        Platform::MacOs => concat3(h, "/Library/Application Support/JetBrains/", name),
        Platform::Windows => concat2("%APPDATA%/JetBrains/", name),
        Platform::Linux => concat3(h, "/.config/JetBrains/", name),
    }
}

/// The application bundle name for the display name `app_name`.
pub fn bundle_name(app_name: &str) -> (r: String)
    ensures
        r@ == spec_bundle_name(app_name@),
{
    if str_has_suffix(app_name, ".app") {
        String::from_str(app_name)
    } else {
        concat2(app_name, ".app")
    }
}

/// The ordered installation-directory candidates for the display name
/// `app_name`.
pub fn install_dir_candidates(platform: Platform, home: Option<&str>, app_name: &str) -> (r: Vec<
    String,
>)
    ensures
        r.deep_view() == spec_install_candidates(platform, home.deep_view(), app_name@),
        r.len() == install_candidate_count(platform),
{
    let h = match home {
        Some(h) => h,
        None => "",
    };
    proof {
        reveal_strlit("");
        assert(h@ =~= home_or_empty(home.deep_view()));
    }
    let mut out: Vec<String> = Vec::new();
    match platform {
        Platform::MacOs => {
            let b = bundle_name(app_name);
            out.push(concat2("/Applications/", b.as_str()));
            out.push(concat3(h, "/Applications/", b.as_str()));
        },
        Platform::Windows => {
            out.push(concat2("C:\\Program Files\\JetBrains\\", app_name));
        },
        Platform::Linux => {
            out.push(concat2("/opt/jetbrains/", app_name));
        },
    }
    proof {
        assert(out.deep_view() =~= spec_install_candidates(
            platform,
            home.deep_view(),
            app_name@,
        ));
    }
    out
}

/// The candidate selected by the existence flags, walking both sequences
/// together: the first flagged candidate, else `dflt`.
pub open spec fn spec_choose_from(
    c: Seq<Seq<char>>,
    f: Seq<bool>,
    dflt: Seq<char>,
) -> Seq<char>
    decreases c.len(),
{
    if c.len() == 0 || f.len() == 0 {
        dflt
    } else if f[0] {
        c[0]
    } else {
        spec_choose_from(c.drop_first(), f.drop_first(), dflt)
    }
}

/// The installation directory selected from the ordered candidates `c` by
/// the existence flags `f`: the first flagged one, else the first overall.
pub open spec fn spec_choose_install(c: Seq<Seq<char>>, f: Seq<bool>) -> Seq<char> {
    spec_choose_from(c, f, c[0])
}

proof fn lemma_choose_from_first(c: Seq<Seq<char>>, f: Seq<bool>, dflt: Seq<char>)
    requires
        c.len() == f.len(),
    ensures
        (exists|i: int| 0 <= i < f.len() && f[i]) ==> exists|i: int|
            {
                &&& 0 <= i < f.len()
                &&& f[i]
                &&& forall|j: int| 0 <= j < i ==> !f[j]
                &&& spec_choose_from(c, f, dflt) == c[i]
            },
        (forall|i: int| 0 <= i < f.len() ==> !f[i]) ==> spec_choose_from(c, f, dflt) == dflt,
    decreases c.len(),
{
    if c.len() > 0 && !f[0] {
        lemma_choose_from_first(c.drop_first(), f.drop_first(), dflt);
        if exists|i: int| 0 <= i < f.len() && f[i] {
            let w = choose|i: int| 0 <= i < f.len() && f[i];
            assert(w > 0);
            assert(f.drop_first()[w - 1] == f[w]);
            let i = choose|i: int|
                {
                    &&& 0 <= i < f.drop_first().len()
                    &&& f.drop_first()[i]
                    &&& forall|j: int| 0 <= j < i ==> !f.drop_first()[j]
                    &&& spec_choose_from(c.drop_first(), f.drop_first(), dflt)
                        == c.drop_first()[i]
                };
            assert(f[i + 1] && c[i + 1] == c.drop_first()[i]);
            assert forall|j: int| 0 <= j < i + 1 implies !f[j] by {
                if j > 0 {
                    assert(f.drop_first()[j - 1] == f[j]);
                }
            }
            assert({
                &&& 0 <= i + 1 < f.len()
                &&& f[i + 1]
                &&& forall|j: int| 0 <= j < i + 1 ==> !f[j]
                &&& spec_choose_from(c, f, dflt) == c[i + 1]
            });
        } else {
            assert(forall|i: int| 0 <= i < f.drop_first().len() ==> !(
            #[trigger] f.drop_first()[i]));
        }
    }
}

/// The install directory is the first existence-flagged candidate when
/// one is flagged, and the first candidate unchecked when none is.
pub proof fn lemma_choose_install_first_existing(c: Seq<Seq<char>>, f: Seq<bool>)
    requires
        c.len() == f.len(),
        c.len() >= 1,
    ensures
        (exists|i: int| 0 <= i < f.len() && f[i]) ==> exists|i: int|
            {
                &&& 0 <= i < f.len()
                &&& f[i]
                &&& forall|j: int| 0 <= j < i ==> !f[j]
                &&& spec_choose_install(c, f) == c[i]
            },
        (forall|i: int| 0 <= i < f.len() ==> !f[i]) ==> spec_choose_install(c, f) == c[0],
{
    lemma_choose_from_first(c, f, c[0]);
}

/// The installation directory chosen from the ordered candidates: the
/// first whose existence flag is set, else the first candidate unchecked.
pub fn choose_install_dir(candidates: &Vec<String>, exists_flags: &Vec<bool>) -> (r: String)
    requires
        candidates.len() == exists_flags.len(),
        candidates.len() >= 1,
    ensures
        r@ == spec_choose_install(candidates.deep_view(), exists_flags@),
{
    let n = candidates.len();
    let ghost cd = candidates.deep_view();
    let ghost fd = exists_flags@;
    let mut i: usize = 0;
    proof {
        assert(cd.subrange(0, n as int) =~= cd);
        assert(fd.subrange(0, n as int) =~= fd);
    }
    while i < n
        invariant
            0 <= i <= n,
            n == candidates.len(),
            n == exists_flags.len(),
            n >= 1,
            cd == candidates.deep_view(),
            fd == exists_flags@,
            spec_choose_install(cd, fd) == spec_choose_from(
                cd.subrange(i as int, n as int),
                fd.subrange(i as int, n as int),
                cd[0],
            ),
        decreases n - i,
    {
        proof {
            assert(cd.subrange(i as int, n as int)[0] == cd[i as int]);
            assert(fd.subrange(i as int, n as int)[0] == fd[i as int]);
            assert(cd.subrange(i as int, n as int).drop_first() =~= cd.subrange(i + 1, n as int));
            assert(fd.subrange(i as int, n as int).drop_first() =~= fd.subrange(i + 1, n as int));
        }
        if exists_flags[i] {
            return candidates[i].clone();
        }
        i = i + 1;
    }
    proof {
        assert(cd.subrange(n as int, n as int).len() == 0);
    }
    candidates[0].clone()
}

/// The logs directory of the instance named `name` under the logs root
/// `base`.
pub fn instance_logs_dir(platform: Platform, base: &str, name: &str) -> (r: String)
    ensures
        r@ == spec_instance_logs_dir(platform, base@, name@),
{
    match platform {
        Platform::MacOs => concat3(base, "/", name),
        Platform::Windows => concat4(base, "/", name, "/log"),
        Platform::Linux => concat4(base, "/", name, "/log"),
    }
}

/// The vmoptions file path for short code `code` under `config_dir`.
pub fn vmoptions_file_path(config_dir: &str, code: &str) -> (r: String)
    ensures
        r@ == spec_vmoptions_file_path(config_dir@, code@),
{
    concat4(config_dir, "/", code, ".vmoptions")
}

/// The primary log file under `logs_dir` whose presence marks use.
pub fn log_marker_path(logs_dir: &str) -> (r: String)
    ensures
        r@ == spec_log_marker_path(logs_dir@),
{
    concat2(logs_dir, "/idea.log")
}

} // verus!
