//! The agent configuration that the command-line tool keeps, its defaults,
//! and the decisions that the tool's commands make on it.

use vstd::prelude::*;

verus! {

/// Default agent version.
pub fn default_version() -> (r: String)
    ensures
        r@ == "0.1.0"@,
{
    "0.1.0".to_owned()
}

/// Default for a sense flag that a configuration file leaves out.
pub fn default_true() -> (r: bool)
    ensures
        r,
{
    true
}

/// Default fleet discovery mode.
pub fn default_discovery() -> (r: String)
    ensures
        r@ == "lan"@,
{
    "lan".to_owned()
}

/// Default fleet port.
pub fn default_port() -> (r: u16)
    ensures
        r == 7490,
{
    7490
}

/// Default tick board.
pub fn default_board() -> (r: String)
    ensures
        r@ == "local"@,
{
    "local".to_owned()
}

/// Default tick retention.
pub fn default_retention() -> (r: String)
    ensures
        r@ == "7d"@,
{
    "7d".to_owned()
}

/// Default Plato room.
pub fn default_room() -> (r: String)
    ensures
        r@ == "general"@,
{
    "general".to_owned()
}

/// The agent's name and version.
#[derive(Debug)]
pub struct AgentSection {
    pub name: String,
    pub version: String,
}

/// Which senses are enabled.
#[derive(Debug)]
pub struct SensesSection {
    pub filesystem: bool,
    pub network: bool,
    pub system: bool,
}

/// How the agent finds its fleet.
#[derive(Debug)]
pub struct FleetSection {
    pub discovery: String,
    pub port: u16,
}

/// Where ticks are posted and how long they are kept.
#[derive(Debug)]
pub struct TickSection {
    pub board: String,
    pub retention: String,
}

/// The Plato room that the agent uses by default.
#[derive(Debug)]
pub struct PlatoSection {
    pub default_room: String,
}

/// The whole agent configuration.
#[derive(Debug)]
pub struct AgentConfig {
    pub agent: AgentSection,
    pub senses: SensesSection,
    pub fleet: FleetSection,
    pub tick: TickSection,
    pub plato: PlatoSection,
}

impl Default for AgentSection {
    fn default() -> (r: Self)
        ensures
            r.name@ == "my-agent"@,
            r.version@ == "0.1.0"@,
    {
        AgentSection { name: "my-agent".to_owned(), version: default_version() }
    }
}

impl Default for SensesSection {
    fn default() -> (r: Self)
        ensures
            !r.filesystem && !r.network && !r.system,
    {
        SensesSection { filesystem: false, network: false, system: false }
    }
}

impl Default for FleetSection {
    fn default() -> (r: Self)
        ensures
            r.discovery@ == "lan"@,
            r.port == 7490,
    {
        FleetSection { discovery: default_discovery(), port: default_port() }
    }
}

impl Default for TickSection {
    fn default() -> (r: Self)
        ensures
            r.board@ == "local"@,
            r.retention@ == "7d"@,
    {
        TickSection { board: default_board(), retention: default_retention() }
    }
}

impl Default for PlatoSection {
    fn default() -> (r: Self)
        ensures
            r.default_room@ == "general"@,
    {
        PlatoSection { default_room: default_room() }
    }
}

impl Default for AgentConfig {
    fn default() -> (r: Self)
        ensures
            r.agent.name@ == "my-agent"@,
            r.agent.version@ == "0.1.0"@,
            !r.senses.filesystem && !r.senses.network && !r.senses.system,
            r.fleet.discovery@ == "lan"@,
            r.fleet.port == 7490,
            r.tick.board@ == "local"@,
            r.tick.retention@ == "7d"@,
            r.plato.default_room@ == "general"@,
    {
        AgentConfig {
            agent: AgentSection::default(),
            senses: SensesSection::default(),
            fleet: FleetSection::default(),
            tick: TickSection::default(),
            plato: PlatoSection::default(),
        }
    }
}

/// The discovery modes offered by the onboarding wizard, in menu order.
pub open spec fn discovery_options() -> Seq<Seq<char>> {
    seq!["lan"@, "mesh"@, "off"@]
}

/// The tick board modes offered by the onboarding wizard, in menu order.
pub open spec fn board_options() -> Seq<Seq<char>> {
    seq!["local"@, "remote"@, "off"@]
}

/// The senses of the wizard's sense profiles: the default profile (0), the
/// full profile (1) and the minimal profile (2) that keeps the filesystem only.
pub fn sense_profile(choice: usize) -> (r: SensesSection)
    ensures
        r.filesystem,
        r.network == (choice != 2),
        r.system == (choice != 2),
{
    SensesSection { filesystem: true, network: choice != 2, system: choice != 2 }
}

/// The configuration that the onboarding wizard writes for the given answers.
pub fn init_config(agent_name: String, sense_choice: usize, discovery_choice: usize, board_choice: usize) -> (r: AgentConfig)
    requires
        discovery_choice < 3,
        board_choice < 3,
    ensures
        r.agent.name == agent_name,
        r.agent.version@ == "0.1.0"@,
        r.senses.filesystem,
        r.senses.network == (sense_choice != 2),
        r.senses.system == (sense_choice != 2),
        r.fleet.discovery@ == discovery_options()[discovery_choice as int],
        r.fleet.port == 7490,
        r.tick.board@ == board_options()[board_choice as int],
        r.tick.retention@ == "7d"@,
        r.plato.default_room@ == "general"@,
{
    let discovery = if discovery_choice == 0 {
        "lan"
    } else if discovery_choice == 1 {
        "mesh"
    } else {
        "off"
    };
    let board = if board_choice == 0 {
        "local"
    } else if board_choice == 1 {
        "remote"
    } else {
        "off"
    };
    AgentConfig {
        agent: AgentSection { name: agent_name, version: "0.1.0".to_owned() },
        senses: sense_profile(sense_choice),
        fleet: FleetSection { discovery: discovery.to_owned(), port: 7490 },
        tick: TickSection { board: board.to_owned(), retention: "7d".to_owned() },
        plato: PlatoSection::default(),
    }
}

/// Turn the named sense on or off.  Returns whether the name is one of the
/// senses (`filesystem`, `network`, `system`); an unknown name changes nothing.
pub fn set_sense(senses: &mut SensesSection, name: &str, enabled: bool) -> (known: bool)
    ensures
        known == (name@ == "filesystem"@ || name@ == "network"@ || name@ == "system"@),
        final(senses).filesystem == (if name@ == "filesystem"@ { enabled } else { old(senses).filesystem }),
        final(senses).network == (if name@ == "network"@ { enabled } else { old(senses).network }),
        final(senses).system == (if name@ == "system"@ { enabled } else { old(senses).system }),
{
    proof {
        reveal_strlit("filesystem");
        reveal_strlit("network");
        reveal_strlit("system");
        assert("filesystem"@.len() != "network"@.len());
        assert("filesystem"@.len() != "system"@.len());
        assert("network"@.len() != "system"@.len());
    }
    let key = name.to_owned();
    if key == "filesystem".to_owned() {
        senses.filesystem = enabled;
        true
    } else if key == "network".to_owned() {
        senses.network = enabled;
        true
    } else if key == "system".to_owned() {
        senses.system = enabled;
        true
    } else {
        false
    }
}

/// The most recent `count` entries of a log, oldest first.
pub fn recent_ticks<T: Copy>(lines: &[T], count: usize) -> (r: Vec<T>)
    ensures
        r@ == lines@.skip(lines@.len() - (if count < lines@.len() { count as int } else { lines@.len() as int })),
{
    let start = if count < lines.len() {
        lines.len() - count
    } else {
        0
    };
    let mut out: Vec<T> = Vec::new();
    let mut k: usize = start;
    while k < lines.len()
        invariant
            start <= k <= lines.len(),
            out@ == lines@.subrange(start as int, k as int),
        decreases lines.len() - k,
    {
        out.push(lines[k]);
        assert(out@ =~= lines@.subrange(start as int, k + 1));
        k += 1;
    }
    assert(out@ =~= lines@.skip(start as int));
    out
}

} // verus!
