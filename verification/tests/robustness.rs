//! No contents of a file make a reader panic: samples are changed at random and read.
use async_procfs::error::FileRead;
use async_procfs::process::task::Task;
use async_procfs::process::Process;
use async_procfs::procfs::AsyncProcfs;
use async_procfs::system_info::{kernel_stats, load_average};

const STAT: &str = "2557 (some (odd) name) S 2556 2557 2557 34822 2557 4194304 1 0 0 0 0 0 0 0 20 0 1 0 5 2 1 18446744073709551615 1 2 3 4 5 0 0 0 0 0 0 0 17 1 0 0 0 0 0 1 2 3 4 5 6 7 0\n";
const IO: &str = "rchar: 1948\nwchar: 0\nsyscr: 7\nsyscw: 0\nread_bytes: 0\nwrite_bytes: 0\ncancelled_write_bytes: 0\n";
const MAPS: &str = "55d0-55d4 r-xp 00000000 08:01 1180 /usr/bin/cat\n7ffd-7ffe rw-p 00000000 00:00 0 [stack:12]\n7f0-7f1 rw-s 00000000 00:05 0 /SYSV00000000 (deleted)\n7f0-7f1 rw-s 00000000 00:05 0 [anon:name]\nSize: 132 kB\nRss: 12 kB\nVmFlags: rd wr mr\n";
const LIMITS: &str = "Limit                     Soft Limit           Hard Limit           Units     \nMax cpu time              unlimited            unlimited            seconds   \nMax file size             unlimited            unlimited            bytes     \nMax data size             unlimited            unlimited            bytes     \nMax stack size            8388608              unlimited            bytes     \nMax core file size        0                    unlimited            bytes     \nMax resident set          unlimited            unlimited            bytes     \nMax processes             30000                30000                processes \nMax open files            1024                 4096                 files     \nMax locked memory         65536                65536                bytes     \nMax address space         unlimited            unlimited            bytes     \nMax file locks            unlimited            unlimited            locks     \nMax pending signals       30000                30000                signals   \nMax msgqueue size         819200               819200               bytes     \nMax nice priority         0                    0                    \nMax realtime priority     0                    0                    \nMax realtime timeout      unlimited            unlimited            us        \n";
const STATUS: &str = "Name:\tcat\nUmask:\t0022\nState:\tS (sleeping)\nTgid:\t1\nNgid:\t0\nPid:\t1\nPPid:\t0\nTracerPid:\t0\nUid:\t0\t0\t0\t0\nGid:\t0\t0\t0\t0\nFDSize:\t64\nGroups:\t0 1 2\nVmPeak:\t 5000 kB\nVmRSS:\t 700 kB\nThreads:\t1\nSigQ:\t0/30000\nSigPnd:\t0000000000000000\nShdPnd:\t0000000000000000\nSigBlk:\t0000000000000000\nSigIgn:\t0000000000000000\nSigCgt:\t0000000000000000\nCapInh:\t0000000000000000\nCapPrm:\t0000003fffffffff\nCapEff:\t0000003fffffffff\nvoluntary_ctxt_switches:\t1\nnonvoluntary_ctxt_switches:\t2\n";
const ARP: &str = "IP address       HW type     Flags       HW address            Mask     Device\n192.168.1.1 0x1 0x2 aa:bb:cc:dd:ee:ff * eth0\n10.0.0.1 0x1 0x0 00:00:00:00:00:00 * eth1\n";
const TCP: &str = "  sl  local_address rem_address   st tx_queue rx_queue tr tm->when retrnsmt   uid  timeout inode\n   0: 0100007F:1F90 00000000:0000 0A 00000000:00000000 00:00000000 00000000  1000        0 12345 1\n   1: B80D01200000000067452301EFCDAB89:0000 00000000000000000000000000000000:0000 0A 00000000:00000000 00:00000000 00000000     0        0 999 1\n";
const UNIX: &str = "Num       RefCount Protocol Flags    Type St Inode Path\n0000000000000000: 00000002 00000000 00010000 0001 01 20000 /run/x\n0000000000000000: 00000003 00000000 00000000 0001 03 20001\n";
const ROUTE: &str = "Iface\tDestination\tGateway \tFlags\tRefCnt\tUse\tMetric\tMask\t\tMTU\tWindow\tIRTT\neth0\t00000000\t0101A8C0\t0003\t0\t0\t100\t00000000\t0\t0\t0\n";
const DEV: &str = "Inter-|   Receive                                                |  Transmit\n face |bytes    packets errs drop fifo frame compressed multicast|bytes    packets errs drop fifo colls carrier compressed\n    lo:   100       2    0    0    0     0          0         0      100       2    0    0    0     0       0          0\n  eth0: 1 2 3 4 5 6 7 8 9 10 11 12 13 14 15 16\n";
const SNMP: &str = "Ip: Forwarding DefaultTTL InReceives\nIp: 1 64 100\nTcp: RtoAlgorithm RtoMin\nTcp: 1 200\nUdp: InDatagrams NoPorts\nUdp: 5 6\n";
const SNMP6: &str = "Ip6InReceives                   \t5\nIp6InHdrErrors                  \t0\nUdp6InDatagrams                 \t7\n";
const MOUNTINFO: &str = "25 0 8:1 / / rw,relatime shared:1 master:2 - ext4 /dev/sda1 rw,errors=remount-ro\n26 25 0:5 / /dev rw,nosuid - devtmpfs udev rw,size=100k\n";
const MOUNTSTATS: &str = "device /dev/sda1 mounted on / with fstype ext4\ndevice server:/x mounted on /mnt with fstype nfs4 statvers=1.1\n\topts:\trw,vers=4.0\n\tage:\t500\n\tcaps:\tcaps=0x3ffff,wtmult=512\n\tsec:\tflavor=6,pseudoflavor=390003\n\tevents:\t1 2 3 4 5 6 7 8 9 10 11 12 13 14 15 16 17 18 19 20 21 22 23 24 25 26 27\n\tbytes:\t1 2 3 4 5 6 7 8\n\tRPC iostats version: 1.0  p/v: 100003/4 (nfs)\n\txprt:\ttcp 1 2 3\n\tper-op statistics\n\t        NULL: 0 0 0 0 0 0 0 0\n\t        READ: 1 2 3 4 5 6 7 8\n";
const KERNEL: &str = "cpu  1 2 3 4 5 6 7 8 9 10\ncpu0 1 2 3 4 5 6 7 8 9 10\nintr 5\nctxt 100\nbtime 1600000000\nprocesses 5\nprocs_running 1\nprocs_blocked 0\n";
const LOAD: &str = "0.10 0.20 0.30 1/200 12345\n";
const SYSCALL: &str = "0 0x3 0x7f 0x20000 0x22 0x0 0x0 0x7ffd 0x7f01\n";

const PARTS: [&str; 30] = [
    " ", "\n", "\r\n", "\t", "(", ")", ":", "é", "€", "𝄞", "18446744073709551615", "18446744073709551616",
    "18014398509481984", "99999999999", "-", "+", "/SYSV", "/SYSVé", "[stack:", "[stack:é", "0x", "é", "Limit", "A",
    "Size: ", "VmFlags", "\0", "", ",", "=",
];

struct Dice(u64);

impl Dice {
    fn roll(&mut self, sides: usize) -> usize {
        self.0 = self.0.wrapping_mul(6364136223846793005).wrapping_add(1442695040888963407);
        ((self.0 >> 33) as usize) % sides
    }
}

fn changed(sample: &str, dice: &mut Dice) -> Vec<u8> {
    let mut bytes = sample.as_bytes().to_vec();
    for _ in 0..dice.roll(4) {
        let at = dice.roll(bytes.len() + 1);
        match dice.roll(5) {
            0 => {
                let part = PARTS[dice.roll(PARTS.len())];
                let rest = bytes.split_off(at);
                bytes.extend_from_slice(part.as_bytes());
                bytes.extend_from_slice(&rest);
            }
            1 => {
                let until = (at + dice.roll(8)).min(bytes.len());
                bytes.drain(at..until);
            }
            2 => bytes.truncate(at),
            3 => {
                if at < bytes.len() {
                    bytes[at] = dice.roll(256) as u8;
                }
            }
            _ => {
                let part = PARTS[dice.roll(PARTS.len())];
                let until = (at + part.len()).min(bytes.len());
                bytes.splice(at..until, part.bytes());
            }
        }
    }
    bytes
}

fn each_change(sample: &str, read: &dyn Fn(Vec<u8>)) {
    let mut dice = Dice(sample.len() as u64);
    for _ in 0..20000 {
        read(changed(sample, &mut dice));
    }
}

fn process() -> Process {
    Process { pid: 1, path: b"/proc/1".to_vec() }
}

fn root() -> AsyncProcfs {
    AsyncProcfs { root: b"/proc".to_vec() }
}

#[test]
fn changed_stat_files_are_read() {
    each_change(STAT, &|content| {
        let _ = process().stat(FileRead::Read(content.clone()));
        let _ = process().is_alive(FileRead::Read(content.clone()));
        let task = Task { pid: 1, tid: 1, path: Vec::new() };
        let _ = task.stat(FileRead::Read(content));
    });
}

#[test]
fn changed_io_files_are_read() {
    each_change(IO, &|content| {
        let _ = process().io(FileRead::Read(content));
    });
}

#[test]
fn changed_maps_files_are_read() {
    each_change(MAPS, &|content| {
        let _ = process().maps(FileRead::Read(content.clone()));
        let _ = process().smaps(FileRead::Read(content.clone()));
        let _ = process().smaps_rollup(FileRead::Read(content));
    });
}

#[test]
fn changed_limits_files_are_read() {
    each_change(LIMITS, &|content| {
        let _ = process().limits(FileRead::Read(content));
    });
}

#[test]
fn changed_status_files_are_read() {
    each_change(STATUS, &|content| {
        let _ = process().status(FileRead::Read(content));
    });
}

#[test]
fn changed_arp_files_are_read() {
    each_change(ARP, &|content| {
        let _ = process().arp(FileRead::Read(content));
    });
}

#[test]
fn changed_socket_files_are_read() {
    each_change(TCP, &|content| {
        let _ = process().tcp(FileRead::Read(content.clone()), true);
        let _ = process().tcp6(FileRead::Read(content.clone()), false);
        let _ = process().udp(FileRead::Read(content.clone()), true);
        let _ = process().udp6(FileRead::Read(content), false);
    });
    each_change(UNIX, &|content| {
        let _ = process().unix(FileRead::Read(content));
    });
}

#[test]
fn changed_network_files_are_read() {
    each_change(ROUTE, &|content| {
        let _ = process().route(FileRead::Read(content));
    });
    each_change(DEV, &|content| {
        let _ = process().dev_status(FileRead::Read(content));
    });
    each_change(SNMP, &|content| {
        let _ = process().snmp(FileRead::Read(content));
    });
    each_change(SNMP6, &|content| {
        let _ = process().snmp6(FileRead::Read(content));
    });
}

#[test]
fn changed_mount_files_are_read() {
    each_change(MOUNTINFO, &|content| {
        let _ = process().mountinfo(FileRead::Read(content));
    });
    each_change(MOUNTSTATS, &|content| {
        let _ = process().mountstats(FileRead::Read(content));
    });
}

#[test]
fn changed_small_files_are_read() {
    each_change(SYSCALL, &|content| {
        let _ = process().syscall(FileRead::Read(content));
    });
    each_change("1 2 3 4 5 6 7\n", &|content| {
        let _ = process().statm(FileRead::Read(content.clone()));
        let _ = process().schedstat(FileRead::Read(content));
    });
    each_change(LOAD, &|content| {
        let _ = load_average(&root(), FileRead::Read(content));
    });
    each_change(KERNEL, &|content| {
        let _ = kernel_stats(&root(), FileRead::Read(content), 100);
    });
}
