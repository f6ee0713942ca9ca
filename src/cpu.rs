//! The processor identification report.
use vstd::prelude::*;
use vstd::string::StringExecFns;
use crate::text::{hex_fixed, dec, push_hex, push_dec, push_str};

verus! {

/// What the processor identification report shows, as read from the processor.
pub struct CpuSummary {
    pub vendor: String,
    pub brand: String,
    pub family: u8,
    pub model: u8,
    pub stepping: u8,
    pub max_logical_ids: u8,
    pub vmx: bool,
    pub hypervisor: bool,
    pub tsc: bool,
    pub psn: bool,
    pub sysenter_sysexit: bool,
    pub syscall_sysret: bool,
    pub svm: bool,
    pub execute_disable: bool,
    pub gib_pages: bool,
    pub rdtscp: bool,
    pub invariant_tsc: bool,
}

/// `true` or `false`.
pub open spec fn bool_text(b: bool) -> Seq<char> {
    if b {
        "true"@
    } else {
        "false"@
    }
}

/// An indented feature line: `    name: true`.
pub open spec fn flag_text(name: Seq<char>, b: bool) -> Seq<char> {
    "    "@ + name + ": "@ + bool_text(b)
}

/// The lines of the processor report.
pub open spec fn cpu_lines(c: CpuSummary) -> Seq<Seq<char>> {
    seq![
        "Vendor: "@ + c.vendor@,
        "Processor: "@ + c.brand@,
        "Family: "@ + hex_fixed(c.family as nat, 2) + "h, Model: "@ + hex_fixed(c.model as nat, 2)
            + "h, Step: "@ + hex_fixed(c.stepping as nat, 2) + "h"@,
        "Max logical processor ids: "@ + dec(c.max_logical_ids as nat),
        "Features:"@,
        flag_text("vmx"@, c.vmx),
        flag_text("hypervisor"@, c.hypervisor),
        flag_text("tsc"@, c.tsc),
        flag_text("psn"@, c.psn),
        flag_text("sysenter & sysexit"@, c.sysenter_sysexit),
        flag_text("syscall & sysret"@, c.syscall_sysret),
        flag_text("svm"@, c.svm),
        flag_text("de"@, c.execute_disable),
        flag_text("1g pages"@, c.gib_pages),
        flag_text("rdtscp"@, c.rdtscp),
        flag_text("invariant tsc"@, c.invariant_tsc),
    ]
}

/// The views of a list of strings.
pub open spec fn lines_view(v: Seq<String>) -> Seq<Seq<char>> {
    v.map_values(|s: String| s@)
}

/// An indented feature line.
pub fn flag_line(name: &str, b: bool) -> (s: String)
    ensures
        s@ == flag_text(name@, b),
{
    let mut s = String::from_str("    ");
    push_str(&mut s, name);
    push_str(&mut s, ": ");
    if b {
        push_str(&mut s, "true");
    } else {
        push_str(&mut s, "false");
    }
    s
}

/// The lines of the processor report, in order.
pub fn cpu_report(c: &CpuSummary) -> (r: Vec<String>)
    ensures
        lines_view(r@) == cpu_lines(*c),
{
    let mut r: Vec<String> = Vec::new();
    let mut s = String::from_str("Vendor: ");
    push_str(&mut s, c.vendor.as_str());
    r.push(s);
    let mut s = String::from_str("Processor: ");
    push_str(&mut s, c.brand.as_str());
    r.push(s);
    let mut s = String::from_str("Family: ");
    push_hex(&mut s, c.family as u64, 2);
    push_str(&mut s, "h, Model: ");
    push_hex(&mut s, c.model as u64, 2);
    push_str(&mut s, "h, Step: ");
    push_hex(&mut s, c.stepping as u64, 2);
    push_str(&mut s, "h");
    r.push(s);
    let mut s = String::from_str("Max logical processor ids: ");
    push_dec(&mut s, c.max_logical_ids as u128);
    r.push(s);
    r.push(String::from_str("Features:"));
    r.push(flag_line("vmx", c.vmx));
    r.push(flag_line("hypervisor", c.hypervisor));
    r.push(flag_line("tsc", c.tsc));
    r.push(flag_line("psn", c.psn));
    r.push(flag_line("sysenter & sysexit", c.sysenter_sysexit));
    r.push(flag_line("syscall & sysret", c.syscall_sysret));
    r.push(flag_line("svm", c.svm));
    r.push(flag_line("de", c.execute_disable));
    r.push(flag_line("1g pages", c.gib_pages));
    r.push(flag_line("rdtscp", c.rdtscp));
    r.push(flag_line("invariant tsc", c.invariant_tsc));
    assert(lines_view(r@) =~= cpu_lines(*c));
    r
}

} // verus!
