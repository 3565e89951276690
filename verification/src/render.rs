//! Text rendering of scan results.
//!
//! The text forms are fixed: the listing is one `name: install_dir` line
//! per instance under a header, or a single not-found line when the
//! listing is empty; the configuration view is a labeled block with the
//! directories, the vmoptions one per indented line, and the port.

use vstd::prelude::*;
use vstd::string::*;
use crate::instance::InstalledInstance;
use crate::numbers::{dec_repr, u16_to_string};

verus! {

/// The listing line for one instance.
pub open spec fn spec_list_line(inst: InstalledInstance) -> Seq<char> {
    inst.name@ + ": "@ + inst.install_dir@ + "\n"@
}

/// The listing lines for `s`, in order.
pub open spec fn spec_list_lines(s: Seq<InstalledInstance>) -> Seq<char>
    decreases s.len(),
{
    if s.len() == 0 {
        Seq::<char>::empty()
    } else {
        spec_list_lines(s.drop_last()) + spec_list_line(s.last())
    }
}

/// The full listing text: a not-found line for an empty listing, else a
/// header followed by one line per instance.
pub open spec fn spec_render_list(s: Seq<InstalledInstance>) -> Seq<char> {
    if s.len() == 0 {
        "No JetBrains IDEs found\n"@
    } else {
        "Found JetBrains IDEs:\n"@ + spec_list_lines(s)
    }
}

/// The listing text for `instances`.
pub fn render_list_text(instances: &Vec<InstalledInstance>) -> (r: String)
    ensures
        r@ == spec_render_list(instances@),
{
    let n = instances.len();
    if n == 0 {
        return String::from_str("No JetBrains IDEs found\n");
    }
    let mut s = String::from_str("Found JetBrains IDEs:\n");
    let mut i: usize = 0;
    proof {
        assert(spec_list_lines(instances@.subrange(0, 0)) == Seq::<char>::empty());
        assert(s@ =~= "Found JetBrains IDEs:\n"@ + spec_list_lines(instances@.subrange(0, 0)));
    }
    while i < n
        invariant
            0 <= i <= n,
            n == instances.len(),
            s@ == "Found JetBrains IDEs:\n"@ + spec_list_lines(instances@.subrange(0, i as int)),
        decreases n - i,
    {
        let inst = &instances[i];
        s.append(inst.name.as_str());
        s.append(": ");
        s.append(inst.install_dir.as_str());
        s.append("\n");
        proof {
            let now = instances@.subrange(0, i + 1);
            assert(now.drop_last() =~= instances@.subrange(0, i as int));
            assert(now.last() == instances@[i as int]);
            assert(s@ =~= "Found JetBrains IDEs:\n"@ + spec_list_lines(now));
        }
        i = i + 1;
    }
    proof {
        assert(instances@.subrange(0, n as int) =~= instances@);
    }
    s
}

/// The indented vmoptions lines, in order.
pub open spec fn spec_vm_lines(opts: Seq<Seq<char>>) -> Seq<char>
    decreases opts.len(),
{
    if opts.len() == 0 {
        Seq::<char>::empty()
    } else {
        spec_vm_lines(opts.drop_last()) + "    "@ + opts.last() + "\n"@
    }
}

/// The configuration block for one instance.
pub open spec fn spec_render_config(inst: InstalledInstance) -> Seq<char> {
    "Configuration for "@ + inst.name@ + ":\n"@ + "  Install directory: "@ + inst.install_dir@
        + "\n"@ + "  Config directory: "@ + inst.config_dir@ + "\n"@ + "  Logs directory: "@
        + inst.logs_dir@ + "\n"@ + (match inst.vm_options {
        Some(opts) => "  VM Options:\n"@ + spec_vm_lines(opts.deep_view()),
        None => "  VM Options: Not found\n"@,
    }) + (match inst.notification_port {
        Some(p) => "  Port: "@ + dec_repr(p as int) + "\n"@,
        None => "  Port: Not found\n"@,
    })
}

/// The configuration text for `inst`.
pub fn render_config_text(inst: &InstalledInstance) -> (r: String)
    ensures
        r@ == spec_render_config(*inst),
{
    let mut s = String::from_str("Configuration for ");
    s.append(inst.name.as_str());
    s.append(":\n");
    s.append("  Install directory: ");
    s.append(inst.install_dir.as_str());
    s.append("\n");
    s.append("  Config directory: ");
    s.append(inst.config_dir.as_str());
    s.append("\n");
    s.append("  Logs directory: ");
    s.append(inst.logs_dir.as_str());
    s.append("\n");
    let ghost head = "Configuration for "@ + inst.name@ + ":\n"@ + "  Install directory: "@
        + inst.install_dir@ + "\n"@ + "  Config directory: "@ + inst.config_dir@ + "\n"@
        + "  Logs directory: "@ + inst.logs_dir@ + "\n"@;
    proof {
        assert(s@ =~= head);
    }
    match &inst.vm_options {
        Some(opts) => {
            s.append("  VM Options:\n");
            let m = opts.len();
            let mut k: usize = 0;
            proof {
                assert(spec_vm_lines(opts.deep_view().subrange(0, 0)) == Seq::<char>::empty());
                assert(s@ =~= head + "  VM Options:\n"@ + spec_vm_lines(
                    opts.deep_view().subrange(0, 0),
                ));
            }
            while k < m
                invariant
                    0 <= k <= m,
                    m == opts.len(),
                    inst.vm_options == Some(*opts),
                    s@ == head + "  VM Options:\n"@ + spec_vm_lines(
                        opts.deep_view().subrange(0, k as int),
                    ),
                decreases m - k,
            {
                s.append("    ");
                s.append(opts[k].as_str());
                s.append("\n");
                proof {
                    let now = opts.deep_view().subrange(0, k + 1);
                    assert(now.drop_last() =~= opts.deep_view().subrange(0, k as int));
                    assert(now.last() == opts.deep_view()[k as int]);
                    assert(opts.deep_view()[k as int] == opts@[k as int]@);
                    assert(s@ =~= head + "  VM Options:\n"@ + spec_vm_lines(now));
                }
                k = k + 1;
            }
            proof {
                assert(opts.deep_view().subrange(0, m as int) =~= opts.deep_view());
            }
        },
        None => {
            s.append("  VM Options: Not found\n");
        },
    }
    let ghost head2 = s@;
    match inst.notification_port {
        Some(p) => {
            s.append("  Port: ");
            let digits = u16_to_string(p);
            s.append(digits.as_str());
            s.append("\n");
            proof {
                assert(s@ =~= head2 + ("  Port: "@ + dec_repr(p as int) + "\n"@));
            }
        },
        None => {
            s.append("  Port: Not found\n");
        },
    }
    proof {
        assert(s@ =~= spec_render_config(*inst));
    }
    s
}

} // verus!
