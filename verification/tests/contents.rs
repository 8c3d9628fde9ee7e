use async_procfs::error::{ErrorKind, FileRead, IoFailure, ProcfsError};
use async_procfs::process::parsed::state_is_alive;
use async_procfs::process::task::Task;
use async_procfs::process::Process;
use async_procfs::procfs::AsyncProcfs;
use async_procfs::runtime::{execution, Execution, Flavor};
use async_procfs::system_info::{
    boot_time, boot_time_secs, boot_timestamp, current_system_info, is_little_endian, kernel_stats, load_average,
    low_byte_comes_first, page_size, ticks_per_second,
};
use procfs_core::process::{LimitValue, MMapPath, Syscall};
use procfs_core::FromRead;

fn os(code: i32) -> IoFailure {
    let error = std::io::Error::from_raw_os_error(code);
    let kind = match error.kind() {
        std::io::ErrorKind::NotFound => ErrorKind::NotFound,
        std::io::ErrorKind::PermissionDenied => ErrorKind::PermissionDenied,
        _ => ErrorKind::Other,
    };
    IoFailure { kind, raw_os_error: Some(code), has_cause: false, error }
}

fn process() -> Process {
    Process { pid: 7, path: b"/proc/7".to_vec() }
}

fn root() -> AsyncProcfs {
    AsyncProcfs { root: b"/proc".to_vec() }
}

fn read(text: &str) -> FileRead<Vec<u8>> {
    FileRead::Read(text.as_bytes().to_vec())
}

fn stat_text(state: &str) -> String {
    format!("2557 (some (odd) name) {} 2556 2557 2557 34822 2557 4194304 1 0 0 0 0 0 0 0 20 0 1 0 5 2 1 18446744073709551615 1 2 3 4 5 0 0 0 0 0 0 0 17 1 0 0 0 0 0 1 2 3 4 5 6 7 0\n", state)
}

fn rejected<T>(r: Result<T, ProcfsError>) -> bool {
    matches!(r, Err(ProcfsError::Parse(_)))
}

fn unfit<T>(r: Result<T, ProcfsError>) -> bool {
    matches!(r, Err(ProcfsError::Unparsable))
}

fn not_found<T>(r: Result<T, ProcfsError>, path: &str) -> bool {
    matches!(r, Err(ProcfsError::NotFound(Some(p))) if p == path.as_bytes().to_vec())
}

#[test]
fn a_stat_file_is_read() {
    let stat = process().stat(read(&stat_text("S"))).unwrap();
    assert_eq!((stat.pid, stat.comm.as_str(), stat.state), (2557, "some (odd) name", 'S'));
    let (again, state) = process().stat_with_state(read(&stat_text("T"))).unwrap();
    assert_eq!((again.ppid, state), (2556, 'T'));
    assert!(rejected(process().stat(read("no parentheses"))));
    assert!(rejected(process().stat(read("1 (x) S"))));
    for odd in ["(x) S 1", "1 (x)", "1 )x( S", "1é(x) S", "1 (x)é"] {
        assert!(unfit(process().stat(read(odd))), "{}", odd);
    }
    assert!(not_found(process().stat(FileRead::NotOpened(os(2))), "/proc/7/stat"));
    assert!(not_found(process().stat(FileRead::NotRead(os(3))), "/proc/7/io"));
}

#[test]
fn zombies_and_the_dead_are_not_alive() {
    for state in ["R", "S", "D", "T", "t", "I", "K", "W", "P"] {
        assert_eq!(process().is_alive(read(&stat_text(state))), Some(true), "{}", state);
    }
    for state in ["Z", "X", "x"] {
        assert_eq!(process().is_alive(read(&stat_text(state))), Some(false), "{}", state);
    }
    assert_eq!(process().is_alive(read("")), Some(false));
    assert_eq!(process().is_alive(FileRead::NotOpened(os(2))), Some(false));
    assert_eq!(process().is_alive(FileRead::NotRead(os(3))), Some(false));
    assert_eq!(process().is_alive(read("(x) S")), None);
    assert!(state_is_alive('R') && !state_is_alive('Z'));
}

#[test]
fn an_io_file_is_read() {
    let sample = "rchar: 1948\nwchar: 1\nsyscr: 7\nsyscw: 2\nread_bytes: 3\nwrite_bytes: 4\ncancelled_write_bytes: 5\n";
    let io = process().io(read(sample)).unwrap();
    assert_eq!((io.rchar, io.cancelled_write_bytes), (1948, 5));
    assert!(rejected(process().io(read("rchar: 1\n"))));
    assert!(unfit(process().io(read("rcharé 1\n"))));
    assert!(rejected(process().io(read("rchar x\nrcharé 1\n"))));
    assert!(rejected(process().io(FileRead::Read(b"\xff\nrchar\xc3\xa9 1\n".to_vec()))));
    assert!(not_found(process().io(FileRead::NotOpened(os(2))), "/proc/7/io"));
    let task = Task { pid: 7, tid: 8, path: b"/proc/7/task/8".to_vec() };
    assert_eq!(task.io(read(sample)).unwrap().wchar, 1);
    assert!(not_found(task.io(FileRead::NotRead(os(2))), "/proc/7/task/8/io"));
}

#[test]
fn memory_maps_are_read() {
    let sample = "1000-2000 r-xp 00000000 08:01 1180 /usr/bin/cat\n3000-4000 rw-p 00000000 00:00 0 [stack:12]\n";
    let maps = process().maps(read(sample)).unwrap();
    assert_eq!(maps.0.len(), 2);
    assert_eq!(maps.0[0].address, (0x1000, 0x2000));
    assert_eq!(maps.0[1].pathname, MMapPath::TStack(12));
    let sizes = "1000-2000 r-xp 00000000 08:01 1180 /usr/bin/cat\nSize: 132 kB\nVmFlags: rd wr\n";
    let smaps = process().smaps(read(sizes)).unwrap();
    assert_eq!(smaps.0[0].extension.map["Size"], 132 * 1024);
    let rollup = process().smaps_rollup(read("1000-2000 ---p 00000000 00:00 0 [rollup]\nRss: 4 kB\n")).unwrap();
    assert_eq!(rollup.memory_map_rollup.0[0].extension.map["Rss"], 4096);
    assert!(rejected(process().maps(read("1000 r-xp\n"))));
    let bare = "1000-2000 r-xp 00000000 08:01 1180 /usr/bin/cat\nKey: 18446744073709551615\nSize: 5 kB 18446744073709551615\n";
    assert_eq!(process().smaps(read(bare)).unwrap().0[0].extension.map["Key"], u64::MAX);
    let large = "1-2 r 0 0:0 0 \nSize: 18014398509481984 kB\n";
    for odd in ["1-2 r 0 0:0 0 /SYSV1\n", "1-2 r 0 0:0 0 [stack:é\n", large] {
        assert!(unfit(process().maps(read(odd))), "{}", odd);
        assert!(unfit(process().smaps_rollup(read(odd))), "{}", odd);
    }
    for odd in ["1 r 0 0:0 0 /SYSV1\n", "x\n1-2 r 0 0:0 0 [stack:é\n", "Size: 18014398509481984 kB\n"] {
        assert!(rejected(process().maps(read(odd))), "{}", odd);
        assert!(rejected(process().smaps_rollup(read(odd))), "{}", odd);
    }
    assert!(not_found(process().smaps(FileRead::NotOpened(os(2))), "/proc/7/smaps"));
    assert!(not_found(process().smaps_rollup(FileRead::NotOpened(os(2))), "/proc/7/smaps_rollup"));
    assert!(not_found(process().maps(FileRead::NotRead(os(2))), "/proc/7/io"));
}

#[test]
fn mounts_are_read() {
    let info = process().mountinfo(read("25 0 8:1 / /mnt rw,relatime shared:1 - ext4 /dev/sda1 rw\n")).unwrap();
    assert_eq!(info.0.len(), 1);
    assert_eq!((info.0[0].mnt_id, info.0[0].fs_type.as_str()), (25, "ext4"));
    assert!(rejected(process().mountinfo(read("x\n"))));
    let stats = process().mountstats(read("device /dev/sda1 mounted on / with fstype ext4\n")).unwrap();
    assert_eq!(stats.0[0].fs, "ext4");
    assert!(not_found(process().mountstats(FileRead::NotOpened(os(2))), "/proc/7/mountstats"));
    assert!(not_found(process().mountinfo(FileRead::NotOpened(os(2))), "/proc/7/mountinfo"));
}

#[test]
fn limits_are_read() {
    let names = ["cpu time", "file size", "data size", "stack size", "core file size", "resident set", "processes",
        "open files", "locked memory", "address space", "file locks", "pending signals", "msgqueue size",
        "nice priority", "realtime priority", "realtime timeout"];
    let mut sample = String::from("Limit                     Soft Limit           Hard Limit           Units     \n");
    for name in names {
        let units = if name.ends_with("priority") { "" } else { "units" };
        sample.push_str(&format!("Max {:<22}5                    unlimited            {}\n", name, units));
    }
    let limits = process().limits(read(&sample)).unwrap();
    assert!(matches!(limits.max_cpu_time.soft_limit, LimitValue::Value(5)));
    assert!(matches!(limits.max_realtime_timeout.hard_limit, LimitValue::Unlimited));
    assert!(rejected(process().limits(read("Limit\n"))));
    assert!(unfit(process().limits(read("Limit\nMax 5\n"))));
    assert!(not_found(process().limits(FileRead::NotOpened(os(2))), "/proc/7/limits"));
}

#[test]
fn small_files_are_read() {
    let statm = process().statm(read("1 2 3 4 5 6 7\n")).unwrap();
    assert_eq!((statm.size, statm.dt), (1, 7));
    let sched = process().schedstat(read("10 20 30\n")).unwrap();
    assert_eq!((sched.sum_exec_runtime, sched.pcount), (10, 30));
    assert_eq!(process().syscall(read("running\n")).unwrap(), Syscall::Running);
    assert!(rejected(process().statm(read("1 2\n"))));
    assert!(rejected(process().schedstat(read("x\n"))));
    assert!(rejected(process().syscall(read(""))));
    let task = Task { pid: 7, tid: 8, path: b"/proc/7/task/8".to_vec() };
    assert_eq!(task.schedstat(read("10 20 30\n")).unwrap().run_delay, 20);
    assert_eq!(task.syscall(read("running\n")).unwrap(), Syscall::Running);
    assert_eq!(task.stat(read(&stat_text("R"))).unwrap().pid, 2557);
    assert!(not_found(task.syscall(FileRead::NotOpened(os(2))), "/proc/7/task/8/syscall"));
    assert!(not_found(task.status(FileRead::NotRead(os(2))), "/proc/7/task/8/io"));
}

#[test]
fn a_status_file_is_read() {
    let sample = "Name:\tcat\nUmask:\t0022\nState:\tS (sleeping)\nTgid:\t1\nPid:\t1\nPPid:\t0\nTracerPid:\t0\nUid:\t5\t6\t7\t8\nGid:\t0\t0\t0\t0\nFDSize:\t64\nGroups:\t0 1 2\nThreads:\t1\nSigQ:\t0/30000\nSigPnd:\t0000000000000000\nShdPnd:\t0000000000000000\nSigBlk:\t0000000000000000\nSigIgn:\t0000000000000000\nSigCgt:\t0000000000000000\nCapInh:\t0000000000000000\nCapPrm:\t0000003fffffffff\nCapEff:\t0000003fffffffff\n";
    let status = process().status(read(sample)).unwrap();
    assert_eq!((status.name.as_str(), status.euid), ("cat", 6));
    assert!(rejected(process().status(read("Name:\tcat\n"))));
    let task = Task { pid: 7, tid: 8, path: b"/proc/7/task/8".to_vec() };
    assert_eq!(task.status(read(sample)).unwrap().suid, 7);
}

#[test]
fn sockets_are_read_in_the_byte_order_of_the_machine() {
    let sample = "head\n 0: 0100007F:1F90 00000000:0000 0A 00000000:00000000 00:00000000 00000000 1000 0 12345 1\n";
    let little = process().tcp(read(sample), true).unwrap();
    assert_eq!(little.len(), 1);
    assert_eq!(little[0].local_address.to_string(), "127.0.0.1:8080");
    assert_eq!(little[0].inode, 12345);
    let big = process().tcp6(read(sample), false).unwrap();
    assert_eq!(big[0].local_address.to_string(), "1.0.0.127:8080");
    let udp = "head\n 0: 0100007F:1F90 00000000:0000 07 00000000:00000000 00:00000000 00000000 1000 0 99 1\n";
    assert_eq!(process().udp(read(udp), true).unwrap()[0].local_address.to_string(), "127.0.0.1:8080");
    assert_eq!(process().udp6(read(udp), false).unwrap()[0].inode, 99);
    assert!(process().tcp(read(""), true).unwrap().is_empty());
    assert!(rejected(process().tcp(read("head\nx\n"), true)));
    assert!(rejected(process().udp(read("head\nx\n"), true)));
    assert!(not_found(process().tcp(FileRead::NotOpened(os(2)), true), "/proc/7/net/tcp"));
    assert!(not_found(process().tcp6(FileRead::NotOpened(os(2)), true), "/proc/7/net/tcp6"));
    assert!(not_found(process().udp(FileRead::NotOpened(os(2)), true), "/proc/7/net/udp"));
    assert!(not_found(process().udp6(FileRead::NotOpened(os(2)), true), "/proc/7/net/udp6"));
    let unix = process().unix(read("head\n0: 00000002 00000000 00010000 0001 01 20000 /run/x\n")).unwrap();
    assert_eq!((unix[0].ref_count, unix[0].inode), (2, 20000));
    assert!(rejected(process().unix(read("head\nx\n"))));
}

#[test]
fn network_tables_are_read() {
    let arp = process().arp(read("head\n192.168.1.1 0x1 0x2 aa:bb:cc:dd:ee:ff * eth0\n")).unwrap();
    assert_eq!((arp[0].device.as_str(), arp[0].ip_address.to_string().as_str()), ("eth0", "192.168.1.1"));
    assert!(unfit(process().arp(read("head\n192.168.1.1 1 0x2 x * eth0\n"))));
    assert!(unfit(process().arp(read("head\n192.168.1.1 0x1 €2 x * eth0\n"))));
    assert!(rejected(process().arp(read("head\n192.168.1.1 0x1\n"))));
    assert!(rejected(process().arp(read("head\n192.168.1 1 0x2 x * eth0\n"))));
    assert!(rejected(process().arp(read("head\n192.168.1.1 0xg 2 x * eth0\n"))));
    assert!(rejected(process().arp(read("head\nx\n192.168.1.1 1 0x2 x * eth0\n"))));
    assert!(unfit(process().arp(read("head\n10.0.0.1 0x1 0x2 x * eth0\n192.168.1.1 1 0x2 x * eth0\n"))));
    let route = process().route(read("head\neth0\t00000000\t0101A8C0\t0003\t0\t0\t100\t00000000\t0\t0\t0\n")).unwrap();
    let gateway = if is_little_endian() { "192.168.1.1" } else { "1.1.168.192" };
    assert_eq!(route[0].gateway.to_string(), gateway);
    assert!(rejected(process().route(read("head\neth0\n"))));
    let dev = process().dev_status(read("a\nb\n  eth0: 1 2 3 4 5 6 7 8 9 10 11 12 13 14 15 16\n")).unwrap();
    assert_eq!((dev.len(), dev["eth0"].sent_bytes), (1, 9));
    assert!(rejected(process().dev_status(read("a\nb\neth0\n"))));
    assert!(rejected(process().snmp(read("Ip: Forwarding\nIp: 1\n"))));
    let snmp6 = process().snmp6(read("Ip6InReceives 5\nUdp6InDatagrams 7\n"));
    let direct = procfs_core::net::Snmp6::from_read("Ip6InReceives 5\nUdp6InDatagrams 7\n".as_bytes());
    assert_eq!(snmp6.is_ok(), direct.is_ok());
    assert!(not_found(process().arp(FileRead::NotOpened(os(2))), "/proc/7/net/arp"));
    assert!(not_found(process().route(FileRead::NotOpened(os(2))), "/proc/7/net/route"));
    assert!(not_found(process().dev_status(FileRead::NotOpened(os(2))), "/proc/7/net/dev"));
    assert!(not_found(process().unix(FileRead::NotOpened(os(2))), "/proc/7/net/unix"));
    assert!(not_found(process().snmp(FileRead::NotOpened(os(2))), "/proc/7/net/snmp"));
    assert!(not_found(process().snmp6(FileRead::NotRead(os(2))), "/proc/7/io"));
}

#[test]
fn the_statistics_of_the_kernel_are_read() {
    let sample = "cpu  1 2 3 4 5 6 7 8 9 10\ncpu0 1 2 3 4 5 6 7 8 9 10\nctxt 100\nbtime 1600000000\nprocesses 5\n";
    let (stats, btime) = kernel_stats(&root(), read(sample), 100).unwrap();
    assert_eq!((stats.ctxt, stats.btime, btime), (100, 1600000000, 1600000000));
    assert_eq!(stats.total.user_ms(), 10);
    assert_eq!(kernel_stats(&root(), read(sample), 1000).unwrap().0.total.user_ms(), 1);
    assert!(matches!(boot_time_secs(&root(), read(sample), 100), Ok(1600000000)));
    let info = current_system_info(&root());
    assert!(matches!(info.boot_time_secs(read(sample), 100), Ok(1600000000)));
    assert!(rejected(boot_time_secs(&root(), read("btime 5\n"), 100)));
    assert!(not_found(boot_time_secs(&root(), FileRead::NotOpened(os(2)), 100), "/proc/stat"));
    assert!(matches!(boot_time_secs(&root(), FileRead::NotRead(os(2)), 100), Err(ProcfsError::NotFound(None))));
}

#[test]
fn the_load_is_read() {
    let load = load_average(&root(), read("0.50 0.25 0.75 1/200 12345\n")).unwrap();
    assert_eq!((load.one, load.five, load.fifteen), (0.5, 0.25, 0.75));
    assert_eq!((load.cur, load.max, load.latest_pid), (1, 200, 12345));
    assert!(rejected(load_average(&root(), read("0.50\n"))));
    assert!(not_found(load_average(&root(), FileRead::NotOpened(os(2))), "/proc/loadavg"));
}

#[test]
fn the_boot_time_is_one_moment() {
    for secs in [0, 1600000000, i64::MAX as u64, i64::MAX as u64 + 1, u64::MAX] {
        assert_eq!(boot_timestamp(secs), secs as i64);
    }
    assert!(matches!(boot_time(Ok(5), Some("now")), Ok("now")));
    assert!(matches!(boot_time(Ok(5), None::<&str>), Err(ProcfsError::InternalError(_))));
    assert!(matches!(boot_time(Err(ProcfsError::UnexpectedEof), Some(1)), Err(ProcfsError::UnexpectedEof)));
}

#[test]
fn the_machine_is_described() {
    assert_eq!(ticks_per_second(), rustix::param::clock_ticks_per_second());
    assert_eq!(page_size(), rustix::param::page_size() as u64);
    assert_eq!(is_little_endian(), u16::from_ne_bytes([0, 1]).to_le_bytes() == [0, 1]);
    assert!(low_byte_comes_first(256) && !low_byte_comes_first(1));
    let info = current_system_info(&root());
    assert_eq!(info.inner.root, b"/proc".to_vec());
    assert_eq!(info.page_size(), page_size());
    assert_eq!(info.ticks_per_second(), ticks_per_second());
    assert_eq!(info.is_little_endian(), is_little_endian());
    assert_eq!(root().sys().kernel().inner.root, b"/proc".to_vec());
}

#[test]
fn work_is_run_where_it_can_end() {
    assert_eq!(execution(Some(Flavor::CurrentThread)), Execution::OnOtherThread);
    assert_eq!(execution(Some(Flavor::MultiThread)), Execution::OnThisRuntime);
    assert_eq!(execution(None), Execution::OnNewRuntime);
}

#[test]
fn the_error_of_the_parser_is_handed_on() {
    let own = |r: Result<(), ProcfsError>| match r {
        Err(ProcfsError::Parse(e)) => format!("{:?}", e),
        other => panic!("{:?}", other),
    };
    let direct = procfs_core::process::Status::from_read("Name:\tcat\n".as_bytes()).map(|_| ()).unwrap_err();
    assert_eq!(own(process().status(read("Name:\tcat\n")).map(|_| ())), format!("{:?}", direct));
    let direct = procfs_core::process::MemoryMaps::from_read("Size: 5 kB\n".as_bytes()).map(|_| ()).unwrap_err();
    assert_eq!(own(process().maps(read("Size: 5 kB\n")).map(|_| ())), format!("{:?}", direct));
    let unfit = "Size: 18014398509481984 kB\n";
    assert_eq!(own(process().maps(read(unfit)).map(|_| ())), format!("{:?}", direct));
    let direct = procfs_core::process::Status::parse_uid_gid("x", 0).map(|_| ()).unwrap_err();
    let uid = process().loginuid(FileRead::Read("x".to_string()));
    assert_eq!(own(uid.map(|_| ())), format!("{:?}", direct));
}
