//! The files in the directory of a process or a thread.
use vstd::prelude::*;

verus! {

/// A file in the directory of a process or a thread.
#[derive(Clone, Copy, Debug, PartialEq, Eq, Structural)]
pub enum ProcessFile {
    /// The command line.
    Cmdline,
    /// The environment.
    Environ,
    /// The auxiliary vector.
    Auxv,
    /// The I/O counters.
    Io,
    /// The memory maps.
    Maps,
    /// The memory maps with their sizes.
    Smaps,
    /// The sums over the memory maps.
    SmapsRollup,
    /// The statistics of the mounts.
    Mountstats,
    /// The mounts.
    Mountinfo,
    /// The status, for reading by people.
    Status,
    /// The status.
    Stat,
    /// The resource limits.
    Limits,
    /// The user who logged in.
    Loginuid,
    /// The score for the OOM killer.
    OomScore,
    /// The adjustment of the score for the OOM killer.
    OomScoreAdj,
    /// The memory sizes in pages.
    Statm,
    /// The times of the scheduler.
    Schedstat,
    /// The system call that is running.
    Syscall,
    /// What is written to a core dump.
    CoredumpFilter,
    /// The group for scheduling.
    Autogroup,
    /// Where in the kernel the process sleeps.
    Wchan,
    /// Takes what is to be cleared.
    ClearRefs,
    /// The memory.
    Mem,
    /// The link to the working directory.
    Cwd,
    /// The link to the root directory.
    Root,
    /// The link to the program.
    Exe,
    /// The directory of the file descriptors.
    Fd,
    /// The directory of the threads.
    Task,
    /// The children of a thread.
    Children,
    /// The TCP sockets over IPv4.
    Tcp,
    /// The TCP sockets over IPv6.
    Tcp6,
    /// The UDP sockets over IPv4.
    Udp,
    /// The UDP sockets over IPv6.
    Udp6,
    /// The network devices.
    Dev,
    /// The Unix sockets.
    Unix,
    /// The ARP table.
    Arp,
    /// The routes.
    Route,
    /// The counters of IPv4.
    Snmp,
    /// The counters of IPv6.
    Snmp6,
}

/// The path of a file from the directory of the process or thread.
pub open spec fn file_name(file: ProcessFile) -> Seq<char> {
    match file {
        ProcessFile::Cmdline => "cmdline"@,
        ProcessFile::Environ => "environ"@,
        ProcessFile::Auxv => "auxv"@,
        ProcessFile::Io => "io"@,
        ProcessFile::Maps => "maps"@,
        ProcessFile::Smaps => "smaps"@,
        ProcessFile::SmapsRollup => "smaps_rollup"@,
        ProcessFile::Mountstats => "mountstats"@,
        ProcessFile::Mountinfo => "mountinfo"@,
        ProcessFile::Status => "status"@,
        ProcessFile::Stat => "stat"@,
        ProcessFile::Limits => "limits"@,
        ProcessFile::Loginuid => "loginuid"@,
        ProcessFile::OomScore => "oom_score"@,
        ProcessFile::OomScoreAdj => "oom_score_adj"@,
        ProcessFile::Statm => "statm"@,
        ProcessFile::Schedstat => "schedstat"@,
        ProcessFile::Syscall => "syscall"@,
        ProcessFile::CoredumpFilter => "coredump_filter"@,
        ProcessFile::Autogroup => "autogroup"@,
        ProcessFile::Wchan => "wchan"@,
        ProcessFile::ClearRefs => "clear_refs"@,
        ProcessFile::Mem => "mem"@,
        ProcessFile::Cwd => "cwd"@,
        ProcessFile::Root => "root"@,
        ProcessFile::Exe => "exe"@,
        ProcessFile::Fd => "fd"@,
        ProcessFile::Task => "task"@,
        ProcessFile::Children => "children"@,
        ProcessFile::Tcp => "net/tcp"@,
        ProcessFile::Tcp6 => "net/tcp6"@,
        ProcessFile::Udp => "net/udp"@,
        ProcessFile::Udp6 => "net/udp6"@,
        ProcessFile::Dev => "net/dev"@,
        ProcessFile::Unix => "net/unix"@,
        ProcessFile::Arp => "net/arp"@,
        ProcessFile::Route => "net/route"@,
        ProcessFile::Snmp => "net/snmp"@,
        ProcessFile::Snmp6 => "net/snmp6"@,
    }
}

impl ProcessFile {
    /// The path of the file from the directory of the process or thread.
    pub fn name(self) -> (r: &'static str)
        ensures
            r@ == file_name(self),
    {
        match self {
            ProcessFile::Cmdline => "cmdline",
            ProcessFile::Environ => "environ",
            ProcessFile::Auxv => "auxv",
            ProcessFile::Io => "io",
            ProcessFile::Maps => "maps",
            ProcessFile::Smaps => "smaps",
            ProcessFile::SmapsRollup => "smaps_rollup",
            ProcessFile::Mountstats => "mountstats",
            ProcessFile::Mountinfo => "mountinfo",
            ProcessFile::Status => "status",
            ProcessFile::Stat => "stat",
            ProcessFile::Limits => "limits",
            ProcessFile::Loginuid => "loginuid",
            ProcessFile::OomScore => "oom_score",
            ProcessFile::OomScoreAdj => "oom_score_adj",
            ProcessFile::Statm => "statm",
            ProcessFile::Schedstat => "schedstat",
            ProcessFile::Syscall => "syscall",
            ProcessFile::CoredumpFilter => "coredump_filter",
            ProcessFile::Autogroup => "autogroup",
            ProcessFile::Wchan => "wchan",
            ProcessFile::ClearRefs => "clear_refs",
            ProcessFile::Mem => "mem",
            ProcessFile::Cwd => "cwd",
            ProcessFile::Root => "root",
            ProcessFile::Exe => "exe",
            ProcessFile::Fd => "fd",
            ProcessFile::Task => "task",
            ProcessFile::Children => "children",
            ProcessFile::Tcp => "net/tcp",
            ProcessFile::Tcp6 => "net/tcp6",
            ProcessFile::Udp => "net/udp",
            ProcessFile::Udp6 => "net/udp6",
            ProcessFile::Dev => "net/dev",
            ProcessFile::Unix => "net/unix",
            ProcessFile::Arp => "net/arp",
            ProcessFile::Route => "net/route",
            ProcessFile::Snmp => "net/snmp",
            ProcessFile::Snmp6 => "net/snmp6",
        }
    }
}

} // verus!
