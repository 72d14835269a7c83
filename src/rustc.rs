use vstd::prelude::*;

use crate::profile::{
    strings_view, CompileOptions, CompileOptionsView, DebugAssertions, DebugInfoView, LTO,
    OptLevel, OverflowChecks,
};

verus! {

/// `-C <value>` as two arguments.
pub open spec fn codegen(value: Seq<char>) -> Seq<Seq<char>> {
    seq!["-C"@, value]
}

pub open spec fn opt_level_args(o: Option<OptLevel>) -> Seq<Seq<char>> {
    match o {
        None => Seq::empty(),
        Some(OptLevel::O0) => codegen("opt-level=0"@),
        Some(OptLevel::O1) => codegen("opt-level=1"@),
        Some(OptLevel::O2) => codegen("opt-level=2"@),
        Some(OptLevel::O3) => codegen("opt-level=3"@),
        Some(OptLevel::Os) => codegen("opt-level=s"@),
        Some(OptLevel::Oz) => codegen("opt-level=z"@),
    }
}

pub open spec fn debug_info_args(d: Option<DebugInfoView>) -> Seq<Seq<char>> {
    match d {
        None => Seq::empty(),
        Some(DebugInfoView::NoInfo) => codegen("debuginfo=0"@),
        Some(DebugInfoView::Limited) => codegen("debuginfo=1"@),
        Some(DebugInfoView::Full) => codegen("debuginfo=2"@),
        Some(DebugInfoView::Custom(s)) => codegen("debuginfo="@ + s),
    }
}

/// `Default` leaves the choice to the compiler, so it gives no argument.
pub open spec fn debug_assertions_args(d: Option<DebugAssertions>) -> Seq<Seq<char>> {
    match d {
        Some(DebugAssertions::On) => codegen("debug-assertions=true"@),
        Some(DebugAssertions::Off) => codegen("debug-assertions=false"@),
        _ => Seq::empty(),
    }
}

pub open spec fn lto_args(l: Option<LTO>) -> Seq<Seq<char>> {
    match l {
        None => Seq::empty(),
        Some(LTO::Off) => codegen("lto=off"@),
        Some(LTO::Thin) => codegen("lto=thin"@),
        Some(LTO::Fat) => codegen("lto=true"@),
        Some(LTO::Local) => codegen("lto=false"@),
    }
}

pub open spec fn overflow_checks_args(o: Option<OverflowChecks>) -> Seq<Seq<char>> {
    match o {
        None => Seq::empty(),
        Some(OverflowChecks::True) => codegen("overflow-checks=true"@),
        Some(OverflowChecks::False) => codegen("overflow-checks=false"@),
    }
}

/// The arguments a Rust compiler receives for a set of options: one `-C`
/// setting per set field, then the extra flags, which therefore win.
pub open spec fn rustc_args_spec(o: CompileOptionsView) -> Seq<Seq<char>> {
    opt_level_args(o.opt_level) + debug_info_args(o.debug_info_option) + debug_assertions_args(
        o.debug_assertions,
    ) + lto_args(o.lto) + overflow_checks_args(o.overflow_checks) + o.flags
}

fn push_codegen(args: &mut Vec<String>, value: String)
    ensures
        strings_view(final(args)@) == strings_view(old(args)@) + codegen(value@),
{
    let ghost before = args@;
    args.push(String::from_str("-C"));
    args.push(value);
    assert(strings_view(args@) =~= strings_view(before) + codegen(value@));
}

/// The options as arguments of a Rust compiler.
pub fn rustc_args(o: &CompileOptions) -> (r: Vec<String>)
    ensures
        strings_view(r@) == rustc_args_spec(o@),
{
    let mut args: Vec<String> = Vec::new();
    match o.opt_level {
        None => {},
        Some(OptLevel::O0) => push_codegen(&mut args, String::from_str("opt-level=0")),
        Some(OptLevel::O1) => push_codegen(&mut args, String::from_str("opt-level=1")),
        Some(OptLevel::O2) => push_codegen(&mut args, String::from_str("opt-level=2")),
        Some(OptLevel::O3) => push_codegen(&mut args, String::from_str("opt-level=3")),
        Some(OptLevel::Os) => push_codegen(&mut args, String::from_str("opt-level=s")),
        Some(OptLevel::Oz) => push_codegen(&mut args, String::from_str("opt-level=z")),
    }
    assert(strings_view(args@) =~= opt_level_args(o@.opt_level));
    let ghost a1 = strings_view(args@);
    match &o.debug_info_option {
        None => {},
        Some(crate::profile::DebugInfoOption::NoInfo) => push_codegen(&mut args, String::from_str("debuginfo=0")),
        Some(crate::profile::DebugInfoOption::Limited) => push_codegen(&mut args, String::from_str("debuginfo=1")),
        Some(crate::profile::DebugInfoOption::Full) => push_codegen(&mut args, String::from_str("debuginfo=2")),
        Some(crate::profile::DebugInfoOption::Custom(s)) => {
            let v = String::from_str("debuginfo=").concat(s.as_str());
            push_codegen(&mut args, v);
        },
    }
    assert(strings_view(args@) =~= a1 + debug_info_args(o@.debug_info_option));
    let ghost a2 = strings_view(args@);
    match o.debug_assertions {
        Some(DebugAssertions::On) => push_codegen(&mut args, String::from_str("debug-assertions=true")),
        Some(DebugAssertions::Off) => push_codegen(&mut args, String::from_str("debug-assertions=false")),
        _ => {},
    }
    assert(strings_view(args@) =~= a2 + debug_assertions_args(o@.debug_assertions));
    let ghost a3 = strings_view(args@);
    match o.lto {
        None => {},
        Some(LTO::Off) => push_codegen(&mut args, String::from_str("lto=off")),
        Some(LTO::Thin) => push_codegen(&mut args, String::from_str("lto=thin")),
        Some(LTO::Fat) => push_codegen(&mut args, String::from_str("lto=true")),
        Some(LTO::Local) => push_codegen(&mut args, String::from_str("lto=false")),
    }
    assert(strings_view(args@) =~= a3 + lto_args(o@.lto));
    let ghost a4 = strings_view(args@);
    match o.overflow_checks {
        None => {},
        Some(OverflowChecks::True) => push_codegen(&mut args, String::from_str("overflow-checks=true")),
        Some(OverflowChecks::False) => push_codegen(&mut args, String::from_str("overflow-checks=false")),
    }
    assert(strings_view(args@) =~= a4 + overflow_checks_args(o@.overflow_checks));
    let ghost a5 = strings_view(args@);
    let mut i: usize = 0;
    while i < o.flags.len()
        invariant
            i <= o.flags.len(),
            strings_view(args@) == a5 + strings_view(o.flags@.subrange(0, i as int)),
        decreases o.flags.len() - i,
    {
        let ghost before = args@;
        args.push(o.flags[i].clone());
        assert(strings_view(args@) =~= strings_view(before).push(o.flags@[i as int]@));
        assert(strings_view(o.flags@.subrange(0, i + 1)) =~= strings_view(o.flags@.subrange(0, i as int)).push(o.flags@[i as int]@));
        assert(strings_view(args@) =~= a5 + strings_view(o.flags@.subrange(0, i + 1)));
        i = i + 1;
    }
    assert(o.flags@.subrange(0, o.flags.len() as int) == o.flags@);
    args
}

} // verus!
