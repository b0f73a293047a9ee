//! The facts that the report lists.
use vstd::prelude::*;

verus! {

/// Which fact a readout shows.
#[derive(Clone, Copy, Debug, PartialEq, Eq, Structural, Hash)]
pub enum ReadoutKey {
    Host,
    Machine,
    Kernel,
    Distribution,
    OperatingSystem,
    DesktopEnvironment,
    WindowManager,
    Packages,
    Shell,
    Terminal,
    Uptime,
    Processor,
    ProcessorUsage,
    Battery,
    Memory,
}

/// The label that the report shows in front of a fact.
pub open spec fn label_spec(k: ReadoutKey) -> Seq<char> {
    match k {
        ReadoutKey::Host => seq!['H', 'o', 's', 't'],
        ReadoutKey::Machine => seq!['M', 'a', 'c', 'h', 'i', 'n', 'e'],
        ReadoutKey::Kernel => seq!['K', 'e', 'r', 'n', 'e', 'l'],
        ReadoutKey::Distribution => seq!['D', 'i', 's', 't', 'r', 'o'],
        ReadoutKey::OperatingSystem => seq!['O', 'S'],
        ReadoutKey::DesktopEnvironment => seq!['D', 'E'],
        ReadoutKey::WindowManager => seq!['W', 'M'],
        ReadoutKey::Packages => seq!['P', 'a', 'c', 'k', 'a', 'g', 'e', 's'],
        ReadoutKey::Shell => seq!['S', 'h', 'e', 'l', 'l'],
        ReadoutKey::Terminal => seq!['T', 'e', 'r', 'm', 'i', 'n', 'a', 'l'],
        ReadoutKey::Uptime => seq!['U', 'p', 't', 'i', 'm', 'e'],
        ReadoutKey::Processor => seq!['C', 'P', 'U'],
        ReadoutKey::ProcessorUsage => seq!['C', 'P', 'U', ' ', 'L', 'o', 'a', 'd'],
        ReadoutKey::Battery => seq!['B', 'a', 't', 't', 'e', 'r', 'y'],
        ReadoutKey::Memory => seq!['M', 'e', 'm', 'o', 'r', 'y'],
    }
}

/// Every key, in the order in which the report lists them.
pub open spec fn all_keys() -> Seq<ReadoutKey> {
    seq![
        ReadoutKey::Host,
        ReadoutKey::Machine,
        ReadoutKey::Kernel,
        ReadoutKey::Distribution,
        ReadoutKey::OperatingSystem,
        ReadoutKey::DesktopEnvironment,
        ReadoutKey::WindowManager,
        ReadoutKey::Packages,
        ReadoutKey::Shell,
        ReadoutKey::Terminal,
        ReadoutKey::Uptime,
        ReadoutKey::Processor,
        ReadoutKey::ProcessorUsage,
        ReadoutKey::Battery,
        ReadoutKey::Memory,
    ]
}

impl ReadoutKey {
    /// The label shown in front of this fact.
    pub fn label(&self) -> (r: Vec<char>)
        ensures
            r@ == label_spec(*self),
    {
        let r = match self {
            ReadoutKey::Host => vec!['H', 'o', 's', 't'],
            ReadoutKey::Machine => vec!['M', 'a', 'c', 'h', 'i', 'n', 'e'],
            ReadoutKey::Kernel => vec!['K', 'e', 'r', 'n', 'e', 'l'],
            ReadoutKey::Distribution => vec!['D', 'i', 's', 't', 'r', 'o'],
            ReadoutKey::OperatingSystem => vec!['O', 'S'],
            ReadoutKey::DesktopEnvironment => vec!['D', 'E'],
            ReadoutKey::WindowManager => vec!['W', 'M'],
            ReadoutKey::Packages => vec!['P', 'a', 'c', 'k', 'a', 'g', 'e', 's'],
            ReadoutKey::Shell => vec!['S', 'h', 'e', 'l', 'l'],
            ReadoutKey::Terminal => vec!['T', 'e', 'r', 'm', 'i', 'n', 'a', 'l'],
            ReadoutKey::Uptime => vec!['U', 'p', 't', 'i', 'm', 'e'],
            ReadoutKey::Processor => vec!['C', 'P', 'U'],
            ReadoutKey::ProcessorUsage => vec!['C', 'P', 'U', ' ', 'L', 'o', 'a', 'd'],
            ReadoutKey::Battery => vec!['B', 'a', 't', 't', 'e', 'r', 'y'],
            ReadoutKey::Memory => vec!['M', 'e', 'm', 'o', 'r', 'y'],
        };
        assert(r@ =~= label_spec(*self));
        r
    }

    /// Every key, in the order in which the report lists them.
    pub fn variants() -> (r: Vec<ReadoutKey>)
        ensures
            r@ == all_keys(),
    {
        let r = vec![
            ReadoutKey::Host,
            ReadoutKey::Machine,
            ReadoutKey::Kernel,
            ReadoutKey::Distribution,
            ReadoutKey::OperatingSystem,
            ReadoutKey::DesktopEnvironment,
            ReadoutKey::WindowManager,
            ReadoutKey::Packages,
            ReadoutKey::Shell,
            ReadoutKey::Terminal,
            ReadoutKey::Uptime,
            ReadoutKey::Processor,
            ReadoutKey::ProcessorUsage,
            ReadoutKey::Battery,
            ReadoutKey::Memory,
        ];
        assert(r@ =~= all_keys());
        r
    }
}

/// One labelled fact, its value already resolved, or a placeholder where it
/// could not be had.
pub struct Readout {
    pub key: ReadoutKey,
    pub value: Vec<char>,
}

impl Readout {
    pub fn new(key: ReadoutKey, value: Vec<char>) -> (r: Readout)
        ensures
            r.key == key,
            r.value@ == value@,
    {
        Readout { key, value }
    }
}

} // verus!
