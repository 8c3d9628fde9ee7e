use async_procfs::error::{ErrorKind, IoFailure, ProcfsError};
use async_procfs::process::scan::{count_entries, read_number, Listing, Phase, Scan};
use async_procfs::process::{all_processes, Process};
use async_procfs::procfs::AsyncProcfs;

fn os(code: i32) -> IoFailure {
    let error = std::io::Error::from_raw_os_error(code);
    let kind = match error.kind() {
        std::io::ErrorKind::NotFound => ErrorKind::NotFound,
        std::io::ErrorKind::PermissionDenied => ErrorKind::PermissionDenied,
        _ => ErrorKind::Other,
    };
    IoFailure { kind, raw_os_error: Some(code), has_cause: false, error }
}

/// Walks through a directory; numbers below ten can be looked at.
fn walk(listing: Listing, names: Vec<Result<&str, i32>>) -> Vec<Result<i32, ProcfsError>> {
    let mut scan = Scan::new(listing);
    let mut entries = names.into_iter();
    let mut items = Vec::new();
    loop {
        match scan.phase {
            Phase::Reading => {
                let entry = entries.next().map(|e| e.map(String::from).map_err(os));
                if let Some(e) = scan.on_entry(entry) {
                    items.push(Err(e));
                }
            }
            Phase::Probing(n) => {
                let probe = if n < 10 { Ok(n) } else { Err(ProcfsError::NotFound(None)) };
                if let Some(item) = scan.on_probe(probe) {
                    items.push(item);
                }
            }
            Phase::Finished => return items,
        }
    }
}

#[test]
fn names_are_read_as_numbers() {
    for name in ["1", "+1", "-1", "01", "self", "", "1a", "2147483648", "-2147483648"] {
        assert_eq!(read_number(name), name.parse::<i32>().ok(), "{}", name);
    }
}

#[test]
fn processes_that_cannot_be_looked_at_are_reported() {
    let items = walk(Listing::Processes, vec![Ok("."), Ok("1"), Ok("self"), Ok("12"), Ok("3")]);
    assert_eq!(items.len(), 3);
    assert!(matches!(items[0], Ok(1)));
    assert!(matches!(items[1], Err(ProcfsError::NotFound(None))));
    assert!(matches!(items[2], Ok(3)));
}

#[test]
fn threads_and_descriptors_that_cannot_be_looked_at_are_left_out() {
    for listing in [Listing::Tasks, Listing::Descriptors] {
        let items = walk(listing, vec![Ok(".."), Ok("1"), Ok("12"), Ok("3")]);
        assert_eq!(items.len(), 2);
        assert!(matches!(items[0], Ok(1)));
        assert!(matches!(items[1], Ok(3)));
    }
}

#[test]
fn an_entry_that_cannot_be_read_ends_the_walk() {
    for listing in [Listing::Processes, Listing::Tasks, Listing::Descriptors] {
        let items = walk(listing, vec![Ok("1"), Err(13), Ok("3")]);
        assert_eq!(items.len(), 2);
        assert!(matches!(items[0], Ok(1)));
        assert!(matches!(items[1], Err(ProcfsError::PermissionDenied(None))));
    }
}

#[test]
fn a_walk_begins_when_the_directory_is_open() {
    let procfs = AsyncProcfs { root: b"/proc".to_vec() };
    let process = Process { pid: 4, path: b"/proc/4".to_vec() };
    assert!(matches!(all_processes(&procfs, Ok(())), Ok(s) if s == Scan::new(Listing::Processes)));
    assert!(matches!(process.tasks(Ok(())), Ok(s) if s == Scan::new(Listing::Tasks)));
    assert!(matches!(process.fds(Ok(())), Ok(s) if s == Scan::new(Listing::Descriptors)));
    let no_root = all_processes(&procfs, Err(os(13)));
    assert!(matches!(no_root, Err(ProcfsError::PermissionDenied(Some(p))) if p == b"/proc/.".to_vec()));
    let no_tasks = process.tasks(Err(os(2)));
    assert!(matches!(no_tasks, Err(ProcfsError::NotFound(Some(p))) if p == b"/proc/4/task".to_vec()));
    let no_fds = process.fds(Err(os(3)));
    assert!(matches!(no_fds, Err(ProcfsError::NotFound(Some(p))) if p == b"/proc/4/fd".to_vec()));
}

#[test]
fn a_walk_yields_as_many_items_as_are_counted() {
    let lists: Vec<Vec<Result<&str, i32>>> = vec![
        vec![],
        vec![Ok("."), Ok(".."), Ok("0"), Ok("1"), Ok("2")],
        vec![Ok("1"), Ok("x"), Err(13), Ok("3")],
    ];
    for list in lists {
        let entries = list.iter().map(|e| e.map(String::from).map_err(os)).collect();
        for listing in [Listing::Processes, Listing::Tasks, Listing::Descriptors] {
            assert_eq!(walk(listing, list.clone()).len(), count_entries(&entries));
        }
    }
}
