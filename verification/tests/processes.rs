use async_procfs::error::{ErrorKind, FileRead, FileWrite, InternalError, IoFailure, ProcfsError};
use async_procfs::parse::ClearRefs;
use async_procfs::process::auxv::read_auxiliary_vector;
use async_procfs::process::environ::read_environment;
use async_procfs::process::fd::{describe, DescriptorProbe, FDInfo};
use async_procfs::process::files::ProcessFile;
use async_procfs::process::scan::count_entries;
use async_procfs::process::task::{read_children, Task};
use async_procfs::process::{path_number, Process};
use async_procfs::procfs::AsyncProcfs;
use procfs_core::process::{CoredumpFlags, FDTarget};
use procfs_core::ProcError;

fn os(code: i32) -> IoFailure {
    let error = std::io::Error::from_raw_os_error(code);
    let kind = match error.kind() {
        std::io::ErrorKind::NotFound => ErrorKind::NotFound,
        std::io::ErrorKind::PermissionDenied => ErrorKind::PermissionDenied,
        _ => ErrorKind::Other,
    };
    IoFailure { kind, raw_os_error: Some(code), has_cause: false, error }
}

fn root() -> AsyncProcfs {
    AsyncProcfs { root: b"/proc".to_vec() }
}

fn process() -> Process {
    Process { pid: 7, path: b"/proc/7".to_vec() }
}

fn text(s: &str) -> FileRead<String> {
    FileRead::Read(s.to_string())
}

fn not_found<T>(r: Result<T, ProcfsError>, path: Option<&str>) -> bool {
    matches!(r, Err(ProcfsError::NotFound(p)) if p == path.map(|p| p.as_bytes().to_vec()))
}

fn bad_number<T>(r: Result<T, ProcfsError>, text: &str) -> bool {
    matches!(r, Err(ProcfsError::InternalError(InternalError::BadNumber(t))) if t == text)
}

#[test]
fn a_process_has_the_number_it_was_asked_for() {
    for pid in [1, 7, 4194304, 0, -3] {
        let process = Process::new(&root(), pid, Ok(())).unwrap();
        assert_eq!(process.pid(), pid);
        assert_eq!(process.path, format!("/proc/{}", pid).into_bytes());
        assert_eq!(Process::relative_path(pid), pid.to_string());
    }
}

#[test]
fn a_process_that_cannot_be_opened_is_an_error() {
    assert!(not_found(Process::new(&root(), 7, Err(os(2))), Some("7")));
    let denied = Process::new(&root(), 7, Err(os(13)));
    assert!(matches!(denied, Err(ProcfsError::PermissionDenied(Some(p))) if p == b"7".to_vec()));
}

#[test]
fn the_link_tells_who_asks() {
    let me = Process::myself(&root(), Ok(()), Some(b"4711".to_vec())).unwrap();
    assert_eq!(me.pid(), 4711);
    assert_eq!(me.path, b"/proc/self".to_vec());
    assert!(not_found(Process::myself(&root(), Ok(()), None), Some("self")));
    assert!(not_found(Process::myself(&root(), Ok(()), Some(b"47x".to_vec())), Some("self")));
    assert!(not_found(Process::myself(&root(), Ok(()), Some(b"47\xff".to_vec())), Some("self")));
    assert!(not_found(Process::myself(&root(), Err(os(2)), Some(b"4711".to_vec())), Some("self")));
}

#[test]
fn a_number_at_the_end_of_a_path_comes_before_the_link() {
    let process = Process::new_with_path(&root(), "12", Ok(()), Some(b"13".to_vec())).unwrap();
    assert_eq!(process.pid(), 12);
    assert_eq!(path_number("task/9/"), Some(9));
    assert_eq!(path_number("9/.."), None);
    assert_eq!(path_number("self"), None);
}

#[test]
fn the_command_line_is_taken_apart() {
    assert_eq!(process().cmdline(text("cat\0-n\0\0a b\0")).unwrap(), vec!["cat", "-n", "a b"]);
    assert!(process().cmdline(text("")).unwrap().is_empty());
    assert!(not_found(process().cmdline(FileRead::NotOpened(os(2))), Some("/proc/7/cmdline")));
    assert!(not_found(process().cmdline(FileRead::NotRead(os(3))), Some("/proc/7/cmdline")));
}

#[test]
fn the_owner_and_the_links_are_taken_over() {
    assert!(matches!(process().uid(Ok(1000)), Ok(1000)));
    assert!(not_found(process().uid(Err(os(2))), None));
    assert_eq!(process().cwd(Ok(b"/tmp".to_vec())).unwrap(), b"/tmp".to_vec());
    assert_eq!(process().root(Ok(b"/".to_vec())).unwrap(), b"/".to_vec());
    assert_eq!(process().exe(Ok(b"/bin/x (deleted)".to_vec())).unwrap(), b"/bin/x (deleted)".to_vec());
    assert!(not_found(process().cwd(Err(os(2))), Some("/proc/7/cwd")));
    assert!(not_found(process().root(Err(os(2))), Some("/proc/7/root")));
    assert!(not_found(process().exe(Err(os(2))), Some("/proc/7/exe")));
}

#[test]
fn the_environment_is_taken_apart() {
    let read = FileRead::Read(b"A=1\0B=x=y\0none\0=v\0A=2\0".to_vec());
    let mut found = process().environ(read).unwrap();
    found.sort();
    let expected: Vec<(Vec<u8>, Vec<u8>)> = vec![
        (b"".to_vec(), b"v".to_vec()),
        (b"A".to_vec(), b"2".to_vec()),
        (b"B".to_vec(), b"x=y".to_vec()),
    ];
    assert_eq!(found, expected);
    assert!(not_found(process().environ(FileRead::NotOpened(os(2))), Some("/proc/7/environ")));
    assert!(not_found(process().environ(FileRead::NotRead(os(2))), None));
}

#[test]
fn variables_that_were_written_read_back() {
    let variables: Vec<(&[u8], &[u8])> = vec![(b"PATH", b"/bin:/usr/bin"), (b"", b"x"), (b"E", b""), (b"PATH", b"=")];
    let mut content = Vec::new();
    for (name, value) in &variables {
        content.extend_from_slice(name);
        content.push(61);
        content.extend_from_slice(value);
        content.push(0);
    }
    let mut found = read_environment(&content);
    found.sort();
    let expected: Vec<(Vec<u8>, Vec<u8>)> =
        vec![(b"".to_vec(), b"x".to_vec()), (b"E".to_vec(), b"".to_vec()), (b"PATH".to_vec(), b"=".to_vec())];
    assert_eq!(found, expected);
}

#[test]
fn a_final_zero_adds_no_variable() {
    let with = read_environment(&b"A=1\0B=2\0".to_vec());
    let without = read_environment(&b"A=1\0B=2".to_vec());
    assert_eq!(with.len(), 2);
    assert_eq!(without.len(), 2);
    assert!(read_environment(&Vec::new()).is_empty());
}

#[test]
fn the_auxiliary_vector_is_read() {
    let words = |words: &[u64]| -> Vec<u8> { words.iter().flat_map(|w| w.to_le_bytes()).collect() };
    let vector = process().auxv(FileRead::Read(words(&[6, 4096, 17, 100, 6, 1, 0, 0, 9, 9])), 8, true).unwrap();
    assert_eq!(vector.len(), 2);
    assert_eq!(vector[&6], 1);
    assert_eq!(vector[&17], 100);
    assert!(process().auxv(FileRead::Read(Vec::new()), 8, true).unwrap().is_empty());
    let short = process().auxv(FileRead::Read(words(&[6, 4096, 17])), 8, true);
    assert!(matches!(short, Err(ProcfsError::UnexpectedEof)));
    assert!(not_found(process().auxv(FileRead::NotOpened(os(2)), 8, true), Some("/proc/7/auxv")));
    assert!(not_found(process().auxv(FileRead::NotRead(os(2)), 8, true), None));
    let big: Vec<u8> = [3u32, 64, 0, 0].iter().flat_map(|w| w.to_be_bytes()).collect();
    assert_eq!(read_auxiliary_vector(&big, 4, false).unwrap()[&3], 64);
}

fn names(names: &[&str]) -> Vec<Result<String, IoFailure>> {
    names.iter().map(|name| Ok(name.to_string())).collect()
}

#[test]
fn descriptors_are_counted_by_the_size_of_the_directory() {
    assert!(matches!(process().fd_count(Ok(12), None), Ok(12)));
    assert!(matches!(process().fd_count(Ok(12), Some(Ok(names(&["1"])))), Ok(12)));
    assert!(not_found(process().fd_count(Err(os(2)), None), Some("/proc/7/fd")));
    assert!(Process::fd_count_needs_listing(&Ok(0)));
    assert!(!Process::fd_count_needs_listing(&Ok(1)));
    assert!(!Process::fd_count_needs_listing(&Err(os(2))));
}

#[test]
fn descriptors_are_counted_by_their_entries() {
    let listed = names(&[".", "..", "0", "1", "2"]);
    assert!(matches!(process().fd_count(Ok(0), Some(Ok(listed))), Ok(3)));
    assert!(matches!(process().fd_count(Ok(0), Some(Ok(Vec::new()))), Ok(0)));
    assert!(not_found(process().fd_count(Ok(0), Some(Err(os(3)))), Some("/proc/7/fd")));
    let mut broken = names(&["0", "x", "1"]);
    broken.push(Err(os(5)));
    broken.push(Ok("2".to_string()));
    assert_eq!(count_entries(&broken), 3);
}

#[test]
fn the_core_dump_filter_is_read() {
    let flags = process().coredump_filter(text("00000033\n")).unwrap();
    assert_eq!(flags, CoredumpFlags::from_bits(0x33));
    assert_eq!(process().coredump_filter(text("1ff")).unwrap(), Some(CoredumpFlags::all()));
    assert_eq!(process().coredump_filter(text("0")).unwrap(), Some(CoredumpFlags::empty()));
    assert_eq!(process().coredump_filter(text(" \n")).unwrap(), None);
    let unknown = process().coredump_filter(text("200"));
    assert!(matches!(unknown, Err(ProcfsError::InternalError(InternalError::Missing))));
    assert!(bad_number(process().coredump_filter(text(" 0x33\n")), "0x33"));
    assert!(bad_number(process().coredump_filter(text("100000000")), "100000000"));
    let missing = process().coredump_filter(FileRead::NotOpened(os(2)));
    assert!(not_found(missing, Some("/proc/7/coredump_filter")));
    assert!(not_found(process().coredump_filter(FileRead::NotRead(os(2))), None));
}

#[test]
fn texts_are_taken_over() {
    assert_eq!(process().autogroup(text("/autogroup-1 nice 0\n")).unwrap(), "/autogroup-1 nice 0\n");
    assert_eq!(process().wchan(text("do_wait")).unwrap(), "do_wait");
    assert!(not_found(process().autogroup(FileRead::NotOpened(os(2))), Some("/proc/7/autogroup")));
    assert!(not_found(process().wchan(FileRead::NotOpened(os(2))), Some("/proc/7/wchan")));
    assert!(not_found(process().wchan(FileRead::NotRead(os(2))), None));
}

#[test]
fn the_login_user_is_the_first_word() {
    assert!(matches!(process().loginuid(text("4294967295")), Ok(4294967295)));
    assert!(matches!(process().loginuid(text(" 1000 7\n")), Ok(1000)));
    for bad in ["", " ", "-1", "4294967296", "x"] {
        assert!(matches!(process().loginuid(text(bad)), Err(ProcfsError::Parse(ProcError::InternalError(_)))));
    }
    assert!(not_found(process().loginuid(FileRead::NotOpened(os(2))), Some("/proc/7/loginuid")));
}

#[test]
fn the_scores_for_the_oom_killer_are_read() {
    assert!(matches!(process().oom_score(text("667\n")), Ok(667)));
    assert!(matches!(process().oom_score(text("65535")), Ok(65535)));
    assert!(bad_number(process().oom_score(text("65536\n")), "65536"));
    assert!(bad_number(process().oom_score(text("-1\n")), "-1"));
    assert!(matches!(process().oom_score_adj(text("-1000\n")), Ok(-1000)));
    assert!(matches!(process().oom_score_adj(text("-32768")), Ok(-32768)));
    assert!(bad_number(process().oom_score_adj(text("32768")), "32768"));
    assert!(bad_number(process().oom_score_adj(text("")), ""));
    assert!(not_found(process().oom_score(FileRead::NotOpened(os(2))), Some("/proc/7/oom_score")));
    assert!(not_found(process().oom_score_adj(FileRead::NotOpened(os(2))), Some("/proc/7/oom_score_adj")));
}

#[test]
fn an_adjustment_that_was_written_reads_back() {
    for adjustment in [0, 1, -1, 1000, -1000, i16::MAX, i16::MIN] {
        let data = Process::oom_score_adj_data(adjustment);
        assert_eq!(data, adjustment.to_string().into_bytes());
        let written = format!("{}\n", String::from_utf8(data).unwrap());
        assert_eq!(process().oom_score_adj(text(&written)).unwrap(), adjustment);
    }
}

#[test]
fn what_is_written_is_reported() {
    assert!(process().set_oom_score_adj(FileWrite::Written).is_ok());
    assert!(not_found(process().set_oom_score_adj(FileWrite::NotOpened(os(2))), Some("/proc/7/oom_score_adj")));
    let denied = process().set_oom_score_adj(FileWrite::NotWritten(os(13)));
    assert!(matches!(denied, Err(ProcfsError::PermissionDenied(None))));
    assert!(process().clear_refs(FileWrite::Written).is_ok());
    assert!(not_found(process().clear_refs(FileWrite::NotOpened(os(3))), Some("/proc/7/clear_refs")));
    assert!(matches!(process().clear_refs(FileWrite::NotWritten(os(22))), Err(ProcfsError::Io(_, None))));
}

#[test]
fn what_is_cleared_is_written_as_a_number() {
    assert_eq!(Process::clear_refs_data(ClearRefs::PGReferencedAll), b"1".to_vec());
    assert_eq!(Process::clear_refs_data(ClearRefs::PGReferencedAnonymous), b"2".to_vec());
    assert_eq!(Process::clear_refs_data(ClearRefs::PGReferencedFile), b"3".to_vec());
    assert_eq!(Process::clear_refs_data(ClearRefs::SoftDirty), b"4".to_vec());
    assert_eq!(Process::clear_refs_data(ClearRefs::PeakRSS), b"5".to_vec());
}

#[test]
fn threads_lie_below_their_process() {
    let task = process().task_from_tid(9, Ok(())).unwrap();
    assert_eq!((task.pid, task.tid), (7, 9));
    assert_eq!(task.path, b"/proc/7/task/9".to_vec());
    let main = process().task_main_thread(Ok(())).unwrap();
    assert_eq!((main.pid, main.tid), (7, 7));
    assert!(not_found(Task::from_process_at(&process(), 9, Err(os(3))), Some("/proc/7/task/9")));
}

#[test]
fn children_are_read() {
    let task = process().task_from_tid(9, Ok(())).unwrap();
    assert_eq!(task.children(text("12 13 4294967295 ")).unwrap(), vec![12, 13, 4294967295]);
    assert!(task.children(text("")).unwrap().is_empty());
    for bad in ["12 x", "-1", "4294967296"] {
        let r = read_children(bad);
        assert!(matches!(r, Err(ProcfsError::Other(m)) if m == "Failed to parse task's child PIDs"));
    }
    assert!(not_found(task.children(FileRead::NotOpened(os(2))), Some("/proc/7/task/9/children")));
    assert!(not_found(task.children(FileRead::NotRead(os(2))), None));
}

#[test]
fn a_descriptor_shows_its_target_and_the_rights_of_the_owner() {
    let probe = |link: &[u8]| DescriptorProbe::Found { link: link.to_vec(), mode: 0o120577 };
    let info = process().fd_from_fd(3, probe(b"socket:[123]")).unwrap();
    assert_eq!(info.raw_fd, 3);
    assert_eq!(info.mode, 0o500);
    assert_eq!(info.target, FDTarget::Socket(123));
    assert_eq!(FDInfo::from_process_at(&process(), 3, probe(b"/tmp/x")).unwrap().target, FDTarget::Path("/tmp/x".into()));
    let malformed = process().fd_from_fd(3, probe(b"pipe:[x]"));
    assert!(matches!(malformed, Err(ProcfsError::InternalError(InternalError::Malformed(_)))));
    let no_text = process().fd_from_fd(3, probe(b"/\xff"));
    assert!(matches!(no_text, Err(ProcfsError::InternalError(InternalError::Missing))));
    for failed in [DescriptorProbe::NotOpened(os(2)), DescriptorProbe::LinkNotRead(os(2)), DescriptorProbe::NoMetadata(os(2))] {
        assert!(not_found(process().fd_from_fd(3, failed), Some("/proc/7/fd/3")));
    }
    assert_eq!(describe(1, 0o7777, Some(Ok(FDTarget::Net(4)))).unwrap().mode, 0o700);
}

#[test]
fn files_are_opened_below_the_process() {
    assert!(matches!(process().mem(Ok(5)), Ok(5)));
    assert!(not_found(process().mem(Err::<(), IoFailure>(os(2))), Some("/proc/7/mem")));
    assert!(matches!(process().open_relative(b"ns/net", Ok(5)), Ok(5)));
    assert!(not_found(process().open_relative(b"ns/net", Err::<(), IoFailure>(os(2))), Some("/proc/7/ns/net")));
    assert!(not_found(process().open_relative(b"/etc/x", Err::<(), IoFailure>(os(2))), Some("/etc/x")));
    assert!(matches!(process().open_relative_flags(b"ns", Ok(6)), Ok(6)));
    assert!(not_found(process().open_relative_flags(b"ns", Err::<(), IoFailure>(os(3))), Some("/proc/7/ns")));
    assert_eq!(process().file(b"stat"), b"/proc/7/stat".to_vec());
    assert_eq!(ProcessFile::Tcp6.name(), "net/tcp6");
}
