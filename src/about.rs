//! The text of the about screen.

use vstd::prelude::*;
use vstd::string::StringExecFns;

verus! {

/// The lines of the about screen, in order.
pub open spec fn about_lines() -> Seq<Seq<char>> {
    seq![
        "This program was designed to replicate the VPC Shift Tool functions bundled with the VirPil control software package."@,
        "\n"@,
        "Shift Tool Copyright (C) 2024-2025 RavenX8"@,
        "This program comes with ABSOLUTELY NO WARRANTY.\n        This is free software, and you are welcome to redistribute it\n        under certain conditions."@,
        "License: GNU General Public License v3.0"@,
        "Author: RavenX8"@,
        "https://github.com/RavenX8/vpc-shift-tool"@,
    ]
}

/// The lines of the about screen.
pub fn about() -> (r: Vec<String>)
    ensures
        r@.len() == about_lines().len(),
        forall|i: int| 0 <= i < r@.len() ==> (#[trigger] r@[i])@ == about_lines()[i],
{
    let mut r: Vec<String> = Vec::new();
    r.push(String::from_str("This program was designed to replicate the VPC Shift Tool functions bundled with the VirPil control software package."));
    r.push(String::from_str("\n"));
    r.push(String::from_str("Shift Tool Copyright (C) 2024-2025 RavenX8"));
    r.push(String::from_str("This program comes with ABSOLUTELY NO WARRANTY.\n        This is free software, and you are welcome to redistribute it\n        under certain conditions."));
    r.push(String::from_str("License: GNU General Public License v3.0"));
    r.push(String::from_str("Author: RavenX8"));
    r.push(String::from_str("https://github.com/RavenX8/vpc-shift-tool"));
    r
}

} // verus!
