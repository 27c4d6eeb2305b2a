//! The run configuration and the parsing of command-line arguments into it.
//! Parsing never fails: a missing or malformed value takes its flag's
//! default, unknown arguments are ignored and the last occurrence of a flag wins.

use vstd::prelude::*;
use crate::text::{
    parse_u64, parse_u64_spec, split_on, split_on_char, str_eq, trim, trim_str, views,
};

verus! {

/// Default of `--duration` and `--io-duration`, in seconds.
pub const DEFAULT_DURATION_SECS: u64 = 30;
/// Default of `--io-workers`.
pub const DEFAULT_IO_WORKERS: u64 = 2;
/// Default of `--io-size`, in MiB.
pub const DEFAULT_IO_SIZE_MB: u64 = 100;
/// Default of `--chunk-size`, in KiB.
pub const DEFAULT_CHUNK_SIZE_KB: u64 = 64;

/// Every tunable parameter of a run.
#[derive(Clone, Debug)]
pub struct Config {
    pub cpu_percent: u64,
    pub memory_percent: u64,
    pub duration_secs: u64,
    pub io_enabled: bool,
    pub io_paths: Vec<String>,
    pub io_workers: u64,
    pub io_size_mb: u64,
    pub io_duration_secs: u64,
    pub io_random: bool,
    pub io_read: bool,
    pub io_write: bool,
    pub chunk_size_kb: u64,
}

/// A configuration as mathematical values.
pub struct ConfigView {
    pub cpu_percent: u64,
    pub memory_percent: u64,
    pub duration_secs: u64,
    pub io_enabled: bool,
    pub io_paths: Seq<Seq<char>>,
    pub io_workers: u64,
    pub io_size_mb: u64,
    pub io_duration_secs: u64,
    pub io_random: bool,
    pub io_read: bool,
    pub io_write: bool,
    pub chunk_size_kb: u64,
}

impl View for Config {
    type V = ConfigView;

    open spec fn view(&self) -> ConfigView {
        ConfigView {
            cpu_percent: self.cpu_percent,
            memory_percent: self.memory_percent,
            duration_secs: self.duration_secs,
            io_enabled: self.io_enabled,
            io_paths: views(self.io_paths@),
            io_workers: self.io_workers,
            io_size_mb: self.io_size_mb,
            io_duration_secs: self.io_duration_secs,
            io_random: self.io_random,
            io_read: self.io_read,
            io_write: self.io_write,
            chunk_size_kb: self.chunk_size_kb,
        }
    }
}

/// The flags that the parser recognises.
#[derive(Clone, Copy, Debug, PartialEq, Eq, Structural)]
pub enum Flag {
    CpuPercent,
    MemoryPercent,
    Duration,
    Io,
    IoPaths,
    IoWorkers,
    IoSize,
    IoDuration,
    IoRandom,
    IoRead,
    IoWrite,
    ChunkSize,
    Unknown,
}

/// The flag that the argument `a` names.
pub open spec fn flag_of(a: Seq<char>) -> Flag {
    if a == "--cpu-percent"@ {
        Flag::CpuPercent
    } else if a == "--memory-percent"@ {
        Flag::MemoryPercent
    } else if a == "--duration"@ {
        Flag::Duration
    } else if a == "--io"@ {
        Flag::Io
    } else if a == "--io-paths"@ {
        Flag::IoPaths
    } else if a == "--io-workers"@ {
        Flag::IoWorkers
    } else if a == "--io-size"@ {
        Flag::IoSize
    } else if a == "--io-duration"@ {
        Flag::IoDuration
    } else if a == "--io-random"@ {
        Flag::IoRandom
    } else if a == "--io-read"@ {
        Flag::IoRead
    } else if a == "--io-write"@ {
        Flag::IoWrite
    } else if a == "--chunk-size"@ {
        Flag::ChunkSize
    } else {
        Flag::Unknown
    }
}

/// Whether the flag consumes the argument after it as its value.
pub open spec fn takes_value(f: Flag) -> bool {
    match f {
        Flag::Io | Flag::IoRandom | Flag::IoRead | Flag::IoWrite | Flag::Unknown => false,
        _ => true,
    }
}

/// The value of a numeric flag: the number that `v` writes, else `default`.
pub open spec fn number_or(v: Option<Seq<char>>, default: u64) -> u64 {
    match v {
        Some(t) => match parse_u64_spec(t) {
            Some(x) => x,
            None => default,
        },
        None => default,
    }
}

/// The target directories that `--io-paths` gives: the comma-separated
/// pieces, each trimmed; `/tmp` where the value is missing.
pub open spec fn paths_or_default(v: Option<Seq<char>>) -> Seq<Seq<char>> {
    match v {
        Some(t) => split_on(t, ',').map_values(|p: Seq<char>| trim(p)),
        None => seq!["/tmp"@],
    }
}

/// The configuration before any flag is read.
pub open spec fn default_view() -> ConfigView {
    ConfigView {
        cpu_percent: 0,
        memory_percent: 0,
        duration_secs: DEFAULT_DURATION_SECS,
        io_enabled: false,
        io_paths: seq!["/tmp"@],
        io_workers: DEFAULT_IO_WORKERS,
        io_size_mb: DEFAULT_IO_SIZE_MB,
        io_duration_secs: DEFAULT_DURATION_SECS,
        io_random: false,
        io_read: false,
        io_write: false,
        chunk_size_kb: DEFAULT_CHUNK_SIZE_KB,
    }
}

/// The configuration `c` after flag `f` with value `v`.
pub open spec fn apply_flag(c: ConfigView, f: Flag, v: Option<Seq<char>>) -> ConfigView {
    match f {
        Flag::CpuPercent => ConfigView { cpu_percent: number_or(v, 0), ..c },
        Flag::MemoryPercent => ConfigView { memory_percent: number_or(v, 0), ..c },
        Flag::Duration => ConfigView { duration_secs: number_or(v, DEFAULT_DURATION_SECS), ..c },
        Flag::Io => ConfigView { io_enabled: true, ..c },
        Flag::IoPaths => ConfigView { io_paths: paths_or_default(v), ..c },
        Flag::IoWorkers => ConfigView { io_workers: number_or(v, DEFAULT_IO_WORKERS), ..c },
        Flag::IoSize => ConfigView { io_size_mb: number_or(v, DEFAULT_IO_SIZE_MB), ..c },
        Flag::IoDuration => ConfigView {
            io_duration_secs: number_or(v, DEFAULT_DURATION_SECS),
            ..c
        },
        Flag::IoRandom => ConfigView { io_random: true, ..c },
        Flag::IoRead => ConfigView { io_read: true, ..c },
        Flag::IoWrite => ConfigView { io_write: true, ..c },
        Flag::ChunkSize => ConfigView { chunk_size_kb: number_or(v, DEFAULT_CHUNK_SIZE_KB), ..c },
        Flag::Unknown => c,
    }
}

/// The argument at position `i`, if there is one.
pub open spec fn arg_at(args: Seq<Seq<char>>, i: int) -> Option<Seq<char>> {
    if 0 <= i < args.len() {
        Some(args[i])
    } else {
        None
    }
}

/// The configuration that reading `args` from position `i` on makes of `c`.
pub open spec fn scan_flags(args: Seq<Seq<char>>, i: int, c: ConfigView) -> ConfigView
    decreases args.len() + 2 - i,
{
    if i < 0 || i >= args.len() {
        c
    } else {
        let f = flag_of(args[i]);
        if takes_value(f) {
            scan_flags(args, i + 2, apply_flag(c, f, arg_at(args, i + 1)))
        } else {
            scan_flags(args, i + 1, apply_flag(c, f, None))
        }
    }
}

/// What the command line asks for.
#[derive(Debug)]
pub enum Invocation {
    /// Print the usage text and stop.
    Help,
    /// Print the version and stop.
    Version,
    /// Run the load generators with this configuration.
    Run(Config),
}

/// Whether some argument equals `a` or `b`.
pub open spec fn mentions(args: Seq<Seq<char>>, a: Seq<char>, b: Seq<char>) -> bool {
    exists|k: int| 0 <= k < args.len() && (args[k] == a || args[k] == b)
}

fn classify(a: &str) -> (r: Flag)
    ensures
        r == flag_of(a@),
{
    if str_eq(a, "--cpu-percent") {
        Flag::CpuPercent
    } else if str_eq(a, "--memory-percent") {
        Flag::MemoryPercent
    } else if str_eq(a, "--duration") {
        Flag::Duration
    } else if str_eq(a, "--io") {
        Flag::Io
    } else if str_eq(a, "--io-paths") {
        Flag::IoPaths
    } else if str_eq(a, "--io-workers") {
        Flag::IoWorkers
    } else if str_eq(a, "--io-size") {
        Flag::IoSize
    } else if str_eq(a, "--io-duration") {
        Flag::IoDuration
    } else if str_eq(a, "--io-random") {
        Flag::IoRandom
    } else if str_eq(a, "--io-read") {
        Flag::IoRead
    } else if str_eq(a, "--io-write") {
        Flag::IoWrite
    } else if str_eq(a, "--chunk-size") {
        Flag::ChunkSize
    } else {
        Flag::Unknown
    }
}

/// The view of an optional argument.
pub open spec fn opt_view(v: Option<&str>) -> Option<Seq<char>> {
    match v {
        Some(s) => Some(s@),
        None => None,
    }
}

fn number_or_default(v: Option<&str>, default: u64) -> (r: u64)
    ensures
        r == number_or(opt_view(v), default),
{
    match v {
        Some(t) => match parse_u64(t) {
            Some(x) => x,
            None => default,
        },
        None => default,
    }
}

fn default_paths() -> (r: Vec<String>)
    ensures
        views(r@) == seq!["/tmp"@],
{
    let mut r: Vec<String> = Vec::new();
    r.push(String::from_str("/tmp"));
    assert(views(r@) =~= seq!["/tmp"@]);
    r
}

/// Splits a `--io-paths` value at its commas and trims each piece.
pub fn split_paths(v: &str) -> (r: Vec<String>)
    ensures
        views(r@) == split_on(v@, ',').map_values(|p: Seq<char>| trim(p)),
{
    let pieces = split_on_char(v, ',');
    let mut out: Vec<String> = Vec::new();
    let mut i: usize = 0;
    while i < pieces.len()
        invariant
            i <= pieces.len(),
            views(pieces@) == split_on(v@, ','),
            views(out@) == views(pieces@).subrange(0, i as int).map_values(
                |p: Seq<char>| trim(p),
            ),
        decreases pieces.len() - i,
    {
        let ghost before = out@;
        out.push(trim_str(pieces[i].as_str()));
        assert(views(out@) =~= views(pieces@).subrange(0, i + 1).map_values(
            |p: Seq<char>| trim(p),
        )) by {
            assert(views(out@) =~= views(before).push(trim(pieces@[i as int]@)));
        }
        i = i + 1;
    }
    assert(views(pieces@).subrange(0, pieces@.len() as int) == views(pieces@));
    out
}

/// Whether the flag consumes the argument after it as its value.
pub fn flag_takes_value(f: Flag) -> (r: bool)
    ensures
        r == takes_value(f),
{
    match f {
        Flag::Io | Flag::IoRandom | Flag::IoRead | Flag::IoWrite | Flag::Unknown => false,
        _ => true,
    }
}

fn any_arg_is(args: &Vec<String>, a: &str, b: &str) -> (r: bool)
    ensures
        r == mentions(views(args@), a@, b@),
{
    let mut i: usize = 0;
    while i < args.len()
        invariant
            i <= args.len(),
            forall|k: int| 0 <= k < i ==> args@[k]@ != a@ && args@[k]@ != b@,
        decreases args.len() - i,
    {
        if str_eq(args[i].as_str(), a) || str_eq(args[i].as_str(), b) {
            assert(views(args@)[i as int] == args@[i as int]@);
            return true;
        }
        i = i + 1;
    }
    assert(!mentions(views(args@), a@, b@)) by {
        assert forall|k: int| 0 <= k < views(args@).len() implies !(views(args@)[k] == a@
            || views(args@)[k] == b@) by {
            assert(views(args@)[k] == args@[k]@);
        }
    }
    false
}

/// Which load generators a run starts.
#[derive(Clone, Copy, Debug, PartialEq, Eq, Structural)]
pub struct UnitPlan {
    pub cpu: bool,
    pub memory: bool,
    pub io: bool,
}

impl Config {
    /// The generators to start: CPU and memory only for a percentage above
    /// zero, the disk pool only when enabled.
    pub fn units(&self) -> (r: UnitPlan)
        ensures
            r.cpu == (self.cpu_percent > 0),
            r.memory == (self.memory_percent > 0),
            r.io == self.io_enabled,
    {
        UnitPlan {
            cpu: self.cpu_percent > 0,
            memory: self.memory_percent > 0,
            io: self.io_enabled,
        }
    }

    /// Reads the command-line arguments (the program name not among them).
    /// `--version` or `-v` anywhere asks for the version; otherwise no
    /// argument at all, or `--help` or `-h` anywhere, asks for the usage text;
    /// otherwise the flags are read from left to right into the defaults.
    pub fn from_args(args: &Vec<String>) -> (r: Invocation)
        ensures
            (r is Version) == mentions(views(args@), "--version"@, "-v"@),
            (r is Help) == (!mentions(views(args@), "--version"@, "-v"@) && (args@.len() == 0
                || mentions(views(args@), "--help"@, "-h"@))),
            (r is Run) == (!mentions(views(args@), "--version"@, "-v"@) && args@.len() > 0
                && !mentions(views(args@), "--help"@, "-h"@)),
            r matches Invocation::Run(c) ==> c@ == scan_flags(views(args@), 0, default_view()),
    {
        if any_arg_is(args, "--version", "-v") {
            return Invocation::Version;
        }
        if args.len() == 0 || any_arg_is(args, "--help", "-h") {
            return Invocation::Help;
        }
        let ghost a = views(args@);
        let mut cfg = Config::defaults();
        let n = args.len();
        let mut i: usize = 0;
        while i < n
            invariant
                n == args@.len(),
                a == views(args@),
                i <= n,
                scan_flags(a, 0, default_view()) == scan_flags(a, i as int, cfg@),
            decreases n - i,
        {
            assert(a[i as int] == args@[i as int]@);
            let ghost c0 = cfg@;
            let ghost i0 = i as int;
            let f = classify(args[i].as_str());
            if flag_takes_value(f) {
                if i + 1 < n {
                    assert(a[i + 1] == args@[i + 1]@);
                    assert(arg_at(a, i0 + 1) == Some(args@[i + 1]@));
                    cfg.apply(f, Some(args[i + 1].as_str()));
                    i = i + 2;
                    assert(scan_flags(a, i0, c0) == scan_flags(a, i as int, cfg@));
                } else {
                    assert(arg_at(a, i0 + 1).is_none());
                    cfg.apply(f, None);
                    i = i + 1;
                    assert(scan_flags(a, i0, c0) == scan_flags(a, i0 + 2, cfg@));
                    assert(scan_flags(a, i0 + 2, cfg@) == cfg@);
                    assert(scan_flags(a, i as int, cfg@) == cfg@);
                }
            } else {
                cfg.apply(f, None);
                i = i + 1;
                assert(scan_flags(a, i0, c0) == scan_flags(a, i as int, cfg@));
            }
        }
        Invocation::Run(cfg)
    }

    /// The configuration before any flag is read.
    pub fn defaults() -> (r: Config)
        ensures
            r@ == default_view(),
    {
        Config {
            cpu_percent: 0,
            memory_percent: 0,
            duration_secs: DEFAULT_DURATION_SECS,
            io_enabled: false,
            io_paths: default_paths(),
            io_workers: DEFAULT_IO_WORKERS,
            io_size_mb: DEFAULT_IO_SIZE_MB,
            io_duration_secs: DEFAULT_DURATION_SECS,
            io_random: false,
            io_read: false,
            io_write: false,
            chunk_size_kb: DEFAULT_CHUNK_SIZE_KB,
        }
    }

    /// Sets the field that flag `f` governs from its value `v`.
    pub fn apply(&mut self, f: Flag, v: Option<&str>)
        ensures
            final(self)@ == apply_flag(old(self)@, f, opt_view(v)),
    {
        match f {
            Flag::CpuPercent => self.cpu_percent = number_or_default(v, 0),
            Flag::MemoryPercent => self.memory_percent = number_or_default(v, 0),
            Flag::Duration => self.duration_secs = number_or_default(v, DEFAULT_DURATION_SECS),
            Flag::Io => self.io_enabled = true,
            Flag::IoPaths => {
                self.io_paths = match v {
                    Some(t) => split_paths(t),
                    None => default_paths(),
                };
            },
            Flag::IoWorkers => self.io_workers = number_or_default(v, DEFAULT_IO_WORKERS),
            Flag::IoSize => self.io_size_mb = number_or_default(v, DEFAULT_IO_SIZE_MB),
            Flag::IoDuration => self.io_duration_secs = number_or_default(
                v,
                DEFAULT_DURATION_SECS,
            ),
            Flag::IoRandom => self.io_random = true,
            Flag::IoRead => self.io_read = true,
            Flag::IoWrite => self.io_write = true,
            Flag::ChunkSize => self.chunk_size_kb = number_or_default(v, DEFAULT_CHUNK_SIZE_KB),
            Flag::Unknown => {},
        }
    }
}

} // verus!
