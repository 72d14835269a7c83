use vstd::prelude::*;

use crate::lang::{ComplierInfo, ComplierInfoView, Langauge};

verus! {

/// Optimization level.
#[derive(Debug, Clone, Copy, PartialEq, Eq, Structural)]
pub enum OptLevel {
    /// rustc: `-C opt-level=0`
    O0,
    /// rustc: `-C opt-level=1`
    O1,
    /// rustc: `-C opt-level=2`
    O2,
    /// rustc: `-C opt-level=3`
    O3,
    /// rustc: `-C opt-level=s`
    Os,
    /// rustc: `-C opt-level=z`
    Oz,
}

/// Amount of debug information.
#[derive(Debug, Clone, PartialEq, Eq)]
pub enum DebugInfoOption {
    /// no debug information; rustc: `-C debuginfo=0`
    NoInfo,
    /// rustc: `-C debuginfo=1`
    Limited,
    /// rustc: `-C debuginfo=2`
    Full,
    /// rustc: `-C debuginfo=<custom>`
    Custom(String),
}

/// The mathematical value of a [`DebugInfoOption`].
pub enum DebugInfoView {
    NoInfo,
    Limited,
    Full,
    Custom(Seq<char>),
}

impl View for DebugInfoOption {
    type V = DebugInfoView;

    open spec fn view(&self) -> DebugInfoView {
        match self {
            DebugInfoOption::NoInfo => DebugInfoView::NoInfo,
            DebugInfoOption::Limited => DebugInfoView::Limited,
            DebugInfoOption::Full => DebugInfoView::Full,
            DebugInfoOption::Custom(s) => DebugInfoView::Custom(s@),
        }
    }
}

impl DebugInfoOption {
    /// A copy with the same value.
    pub fn duplicate(&self) -> (r: DebugInfoOption)
        ensures
            r@ == self@,
    {
        match self {
            DebugInfoOption::NoInfo => DebugInfoOption::NoInfo,
            DebugInfoOption::Limited => DebugInfoOption::Limited,
            DebugInfoOption::Full => DebugInfoOption::Full,
            DebugInfoOption::Custom(s) => DebugInfoOption::Custom(s.clone()),
        }
    }
}

/// Debug assertions: left to the compiler, forced on, or forced off.
#[derive(Debug, Clone, Copy, PartialEq, Eq, Structural)]
pub enum DebugAssertions {
    /// Determined by the compiler
    Default,
    /// rustc: `-C debug-assertions=true`
    On,
    /// rustc: `-C debug-assertions=false`
    Off,
}

impl Default for DebugAssertions {
    fn default() -> (r: DebugAssertions)
        ensures
            r == DebugAssertions::Default,
    {
        DebugAssertions::Default
    }
}

/// Link-time optimization mode.
#[derive(Debug, Clone, Copy, PartialEq, Eq, Structural)]
pub enum LTO {
    /// "thin local" LTO; rustc: `-C lto=false`
    Local,
    /// "fat" LTO; rustc: `-C lto=true`
    Fat,
    /// "thin" LTO; rustc: `-C lto=thin`
    Thin,
    /// no LTO; rustc: `-C lto=off`
    Off,
}

impl Default for LTO {
    fn default() -> (r: LTO)
        ensures
            r == LTO::Local,
    {
        LTO::Local
    }
}

/// Arithmetic overflow checks; only Rust toolchains read this option.
#[derive(Debug, Clone, Copy, PartialEq, Eq, Structural)]
pub enum OverflowChecks {
    /// rustc: `-C overflow-checks=true`
    True,
    /// rustc: `-C overflow-checks=false`
    False,
}

/// The kind of build a set of options belongs to.
#[derive(Debug, Clone, PartialEq, Eq)]
pub enum CompileProfile {
    Debug,
    Release,
    /// A named custom build profile.
    Custom(String),
}

/// The mathematical value of a [`CompileProfile`].
pub enum CompileProfileView {
    Debug,
    Release,
    Custom(Seq<char>),
}

impl View for CompileProfile {
    type V = CompileProfileView;

    open spec fn view(&self) -> CompileProfileView {
        match self {
            CompileProfile::Debug => CompileProfileView::Debug,
            CompileProfile::Release => CompileProfileView::Release,
            CompileProfile::Custom(s) => CompileProfileView::Custom(s@),
        }
    }
}

impl CompileProfile {
    /// A copy with the same value.
    pub fn duplicate(&self) -> (r: CompileProfile)
        ensures
            r@ == self@,
    {
        match self {
            CompileProfile::Debug => CompileProfile::Debug,
            CompileProfile::Release => CompileProfile::Release,
            CompileProfile::Custom(s) => CompileProfile::Custom(s.clone()),
        }
    }
}

/// A resolved set of compile options. An unset field defers to the toolchain's default.
#[derive(Debug, Clone, PartialEq, Eq)]
pub struct CompileOptions {
    pub opt_level: Option<OptLevel>,
    pub lto: Option<LTO>,
    pub debug_info_option: Option<DebugInfoOption>,
    pub debug_assertions: Option<DebugAssertions>,
    pub overflow_checks: Option<OverflowChecks>,
    pub profile: Option<CompileProfile>,
    /// Extra flags, passed last, in order.
    pub flags: Vec<String>,
}

/// The mathematical value of a [`CompileOptions`].
pub struct CompileOptionsView {
    pub opt_level: Option<OptLevel>,
    pub lto: Option<LTO>,
    pub debug_info_option: Option<DebugInfoView>,
    pub debug_assertions: Option<DebugAssertions>,
    pub overflow_checks: Option<OverflowChecks>,
    pub profile: Option<CompileProfileView>,
    pub flags: Seq<Seq<char>>,
}

pub open spec fn option_view<T: View>(o: Option<T>) -> Option<T::V> {
    match o {
        Some(v) => Some(v@),
        None => None,
    }
}

pub open spec fn strings_view(v: Seq<String>) -> Seq<Seq<char>> {
    v.map_values(|s: String| s@)
}

impl View for CompileOptions {
    type V = CompileOptionsView;

    open spec fn view(&self) -> CompileOptionsView {
        CompileOptionsView {
            opt_level: self.opt_level,
            lto: self.lto,
            debug_info_option: option_view(self.debug_info_option),
            debug_assertions: self.debug_assertions,
            overflow_checks: self.overflow_checks,
            profile: option_view(self.profile),
            flags: strings_view(self.flags@),
        }
    }
}

/// Options of the given build kind with every other field unset.
pub open spec fn preset_options(profile: CompileProfileView) -> CompileOptionsView {
    CompileOptionsView {
        opt_level: None,
        lto: None,
        debug_info_option: None,
        debug_assertions: None,
        overflow_checks: None,
        profile: Some(profile),
        flags: Seq::empty(),
    }
}

/// The development preset: a debug build, everything else left to the toolchain.
pub open spec fn dev_options() -> CompileOptionsView {
    preset_options(CompileProfileView::Debug)
}

/// The release preset: a release build, everything else left to the toolchain.
pub open spec fn release_options() -> CompileOptionsView {
    preset_options(CompileProfileView::Release)
}

/// A copy of a list of strings.
pub fn copy_strings(v: &Vec<String>) -> (r: Vec<String>)
    ensures
        r@ == v@,
{
    let mut r: Vec<String> = Vec::new();
    let mut i: usize = 0;
    while i < v.len()
        invariant
            i <= v.len(),
            r@ == v@.subrange(0, i as int),
        decreases v.len() - i,
    {
        r.push(v[i].clone());
        assert(r@ == v@.subrange(0, i + 1));
        i = i + 1;
    }
    assert(v@ == v@.subrange(0, v.len() as int));
    r
}

impl CompileOptions {
    pub fn dev() -> (r: CompileOptions)
        ensures
            r@ == dev_options(),
    {
        let r = CompileOptions {
            opt_level: None,
            lto: None,
            debug_info_option: None,
            debug_assertions: None,
            overflow_checks: None,
            profile: Some(CompileProfile::Debug),
            flags: Vec::new(),
        };
        assert(r@.flags =~= Seq::empty());
        r
    }

    pub fn release() -> (r: CompileOptions)
        ensures
            r@ == release_options(),
    {
        let r = CompileOptions {
            opt_level: None,
            lto: None,
            debug_info_option: None,
            debug_assertions: None,
            overflow_checks: None,
            profile: Some(CompileProfile::Release),
            flags: Vec::new(),
        };
        assert(r@.flags =~= Seq::empty());
        r
    }

    /// A copy with the same value.
    pub fn duplicate(&self) -> (r: CompileOptions)
        ensures
            r@ == self@,
    {
        let debug_info_option = match &self.debug_info_option {
            Some(d) => Some(d.duplicate()),
            None => None,
        };
        let profile = match &self.profile {
            Some(p) => Some(p.duplicate()),
            None => None,
        };
        CompileOptions {
            opt_level: self.opt_level,
            lto: self.lto,
            debug_info_option,
            debug_assertions: self.debug_assertions,
            overflow_checks: self.overflow_checks,
            profile,
            flags: copy_strings(&self.flags),
        }
    }
}

impl Default for CompileOptions {
    /// The development preset.
    fn default() -> (r: CompileOptions)
        ensures
            r@ == dev_options(),
    {
        CompileOptions::dev()
    }
}

/// Builds a [`CompileOptions`]; with nothing set it builds the development preset.
#[derive(Debug, Clone)]
pub struct CompilerOptionsBuilder {}

impl CompilerOptionsBuilder {
    pub fn new() -> (r: CompilerOptionsBuilder) {
        CompilerOptionsBuilder {  }
    }

    pub fn build(self) -> (r: Result<CompileOptions, ()>)
        ensures
            r matches Ok(o) && o@ == dev_options(),
    {
        Ok(CompileOptions::dev())
    }
}

/// A policy that resolves the compile options of one file for one toolchain.
/// Resolution is a function of its inputs: the same file and toolchain give
/// the same options.
pub trait Profile {
    spec fn resolve_spec(&self, file_path: Seq<char>, compiler_info: ComplierInfoView) -> CompileOptionsView;

    fn compile_option(&self, file_path: &str, compiler_info: &ComplierInfo) -> (r: CompileOptions)
        ensures
            r@ == self.resolve_spec(file_path@, compiler_info@),
    ;
}

/// The development preset as a profile.
#[derive(Debug, Clone, Copy, Default, PartialEq, Eq)]
pub struct DevProfile {}

/// The release preset as a profile.
#[derive(Debug, Clone, Copy, Default, PartialEq, Eq)]
pub struct ReleaseProfile {}

/// A user-defined profile: fixed options for every file, plus flags that only
/// Rust toolchains receive, appended after the options' own flags.
#[derive(Debug, Clone, PartialEq, Eq)]
pub struct CustomProfile {
    pub options: CompileOptions,
    pub rust_flags: Vec<String>,
}

/// What a custom profile resolves to for a toolchain of the given language.
pub open spec fn custom_options(
    options: CompileOptionsView,
    rust_flags: Seq<Seq<char>>,
    langauge: Langauge,
) -> CompileOptionsView {
    if langauge == Langauge::Rust {
        CompileOptionsView { flags: options.flags + rust_flags, ..options }
    } else {
        options
    }
}

impl Profile for DevProfile {
    open spec fn resolve_spec(&self, file_path: Seq<char>, compiler_info: ComplierInfoView) -> CompileOptionsView {
        dev_options()
    }

    fn compile_option(&self, _file_path: &str, _compiler_info: &ComplierInfo) -> (r: CompileOptions) {
        CompileOptions::dev()
    }
}

impl Profile for ReleaseProfile {
    open spec fn resolve_spec(&self, file_path: Seq<char>, compiler_info: ComplierInfoView) -> CompileOptionsView {
        release_options()
    }

    fn compile_option(&self, _file_path: &str, _compiler_info: &ComplierInfo) -> (r: CompileOptions) {
        CompileOptions::release()
    }
}

impl Profile for CustomProfile {
    open spec fn resolve_spec(&self, file_path: Seq<char>, compiler_info: ComplierInfoView) -> CompileOptionsView {
        custom_options(self.options@, strings_view(self.rust_flags@), compiler_info.langauge)
    }

    fn compile_option(&self, _file_path: &str, compiler_info: &ComplierInfo) -> (r: CompileOptions) {
        let mut r = self.options.duplicate();
        if compiler_info.langauge() == Langauge::Rust {
            let ghost before = r.flags@;
            let mut i: usize = 0;
            while i < self.rust_flags.len()
                invariant
                    i <= self.rust_flags.len(),
                    r.flags@ == before + self.rust_flags@.subrange(0, i as int),
                    r@ == (CompileOptionsView { flags: r@.flags, ..self.options@ }),
                    strings_view(before) == self.options@.flags,
                decreases self.rust_flags.len() - i,
            {
                r.flags.push(self.rust_flags[i].clone());
                assert(self.rust_flags@.subrange(0, i + 1) == self.rust_flags@.subrange(0, i as int).push(self.rust_flags@[i as int]));
                i = i + 1;
            }
            assert(self.rust_flags@ == self.rust_flags@.subrange(0, self.rust_flags.len() as int));
            assert(strings_view(before + self.rust_flags@) =~= strings_view(before) + strings_view(self.rust_flags@));
        }
        r
    }
}

/// The profiles a project can hold under a name.
#[derive(Debug, Clone, PartialEq, Eq)]
pub enum ProjectProfile {
    Dev(DevProfile),
    Release(ReleaseProfile),
    Custom(CustomProfile),
}

impl Profile for ProjectProfile {
    open spec fn resolve_spec(&self, file_path: Seq<char>, compiler_info: ComplierInfoView) -> CompileOptionsView {
        match self {
            ProjectProfile::Dev(p) => p.resolve_spec(file_path, compiler_info),
            ProjectProfile::Release(p) => p.resolve_spec(file_path, compiler_info),
            ProjectProfile::Custom(p) => p.resolve_spec(file_path, compiler_info),
        }
    }

    fn compile_option(&self, file_path: &str, compiler_info: &ComplierInfo) -> (r: CompileOptions) {
        match self {
            ProjectProfile::Dev(p) => p.compile_option(file_path, compiler_info),
            ProjectProfile::Release(p) => p.compile_option(file_path, compiler_info),
            ProjectProfile::Custom(p) => p.compile_option(file_path, compiler_info),
        }
    }
}

} // verus!
