use async_procfs::error::{take_parsed, ErrorKind, FileRead, FileWrite, IoFailure, ProcfsError};
use async_procfs::open::{replacing, updating, Access};
use async_procfs::procfs::{AsyncProcfs, AsyncProcfsIo, WriteRequest};
use procfs_core::{IoErrorWrapper, ProcError};
use std::path::PathBuf;

fn failure_of(error: std::io::Error) -> IoFailure {
    let kind = match error.kind() {
        std::io::ErrorKind::NotFound => ErrorKind::NotFound,
        std::io::ErrorKind::PermissionDenied => ErrorKind::PermissionDenied,
        _ => ErrorKind::Other,
    };
    IoFailure { kind, raw_os_error: error.raw_os_error(), has_cause: error.get_ref().is_some(), error }
}

fn os(code: i32) -> IoFailure {
    failure_of(std::io::Error::from_raw_os_error(code))
}

fn wrapped(code: i32, path: &str) -> ProcError {
    let error = std::io::Error::from_raw_os_error(code);
    let kind = error.kind();
    ProcError::from(std::io::Error::new(kind, IoErrorWrapper { path: PathBuf::from(path), inner: error.into() }))
}

fn same(own: &ProcfsError, outside: &ProcError) -> bool {
    let path = |p: &Option<PathBuf>| p.as_ref().map(|p| p.to_str().unwrap().as_bytes().to_vec());
    match (own, outside) {
        (ProcfsError::PermissionDenied(a), ProcError::PermissionDenied(b)) => *a == path(b),
        (ProcfsError::NotFound(a), ProcError::NotFound(b)) => *a == path(b),
        (ProcfsError::Io(_, a), ProcError::Io(_, b)) => *a == path(b),
        _ => false,
    }
}

#[test]
fn named_failures_agree_with_the_errors_of_procfs_core() {
    for code in 1..120 {
        let own = ProcfsError::on_file(os(code), b"/proc/1/io".to_vec());
        assert!(same(&own, &wrapped(code, "/proc/1/io")), "{}", code);
    }
}

#[test]
fn unnamed_failures_agree_with_the_errors_of_procfs_core() {
    for code in 1..120 {
        let own = ProcfsError::unnamed(os(code));
        let outside = ProcError::from(std::io::Error::from_raw_os_error(code));
        assert!(same(&own, &outside), "{}", code);
    }
    let make = || std::io::Error::new(std::io::ErrorKind::NotFound, "no text");
    assert!(same(&ProcfsError::unnamed(failure_of(make())), &ProcError::from(make())));
    assert!(matches!(ProcfsError::unnamed(failure_of(make())), ProcfsError::Io(_, None)));
}

#[test]
fn each_kind_of_failure_has_its_error() {
    assert!(matches!(ProcfsError::on_file(os(2), vec![47]), ProcfsError::NotFound(Some(p)) if p == vec![47]));
    assert!(matches!(ProcfsError::on_file(os(13), vec![47]), ProcfsError::PermissionDenied(Some(p)) if p == vec![47]));
    assert!(matches!(ProcfsError::on_file(os(3), vec![47]), ProcfsError::NotFound(Some(p)) if p == vec![47]));
    assert!(matches!(ProcfsError::on_file(os(5), vec![47]), ProcfsError::Io(e, Some(p))
        if p == vec![47] && e.raw_os_error() == Some(5)));
    assert!(matches!(ProcfsError::unnamed(os(3)), ProcfsError::Io(_, None)));
    assert!(matches!(ProcfsError::unnamed(os(2)), ProcfsError::NotFound(None)));
    assert!(matches!(ProcfsError::unnamed(os(1)), ProcfsError::PermissionDenied(None)));
}

#[test]
fn the_first_path_of_an_error_stays() {
    let error = ProcfsError::unnamed(os(2)).error_path(b"first".to_vec()).error_path(b"second".to_vec());
    assert!(matches!(error, ProcfsError::NotFound(Some(p)) if p == b"first".to_vec()));
    assert!(matches!(ProcfsError::UnexpectedEof.error_path(b"x".to_vec()), ProcfsError::UnexpectedEof));
    let later = ProcfsError::unnamed(os(5)).error_path(b"x".to_vec());
    assert!(matches!(later, ProcfsError::Io(_, Some(p)) if p == b"x".to_vec()));
}

#[test]
fn results_of_parsers_are_taken_over() {
    assert!(matches!(take_parsed(Ok(5)), Ok(5)));
    let rejected: Result<i32, ProcfsError> = take_parsed(Err(ProcError::Incomplete(None)));
    assert!(matches!(rejected, Err(ProcfsError::Parse(ProcError::Incomplete(None)))));
}

#[test]
fn files_below_the_root_are_read_and_written() {
    let procfs = AsyncProcfs { root: b"/proc".to_vec() };
    let io: AsyncProcfsIo = procfs.io();
    let text = io.read_file(b"sys/x", FileRead::Read(String::from(" 5\n")));
    assert!(matches!(text, Ok(s) if s == " 5\n"));
    let value = io.read_value(b"sys/x", FileRead::Read(String::from(" \u{2003}5 6\n")));
    assert!(matches!(value, Ok(s) if s == "5 6"));
    for read in [FileRead::NotOpened(os(2)), FileRead::NotRead(os(2))] {
        let missing = io.read_value(b"sys/x", read);
        assert!(matches!(missing, Err(ProcfsError::NotFound(Some(p))) if p == b"/proc/sys/x".to_vec()));
    }
    let gone = io.read_file(b"sys/x", FileRead::NotRead(os(3)));
    assert!(matches!(gone, Err(ProcfsError::Io(_, Some(p))) if p == b"/proc/sys/x".to_vec()));
    assert!(matches!(io.read_value_from(Ok(String::from("\t7 "))), Ok(s) if s == "7"));
    assert!(matches!(io.read_value_from(Err(os(13))), Err(ProcfsError::PermissionDenied(None))));
    let request = WriteRequest::file(b"x", b"data");
    assert!(io.write_file(&request, FileWrite::Written).is_ok());
    assert!(io.write_value(&request, FileWrite::Written).is_ok());
    let denied = io.write_file(&request, FileWrite::NotOpened(os(13)));
    assert!(matches!(denied, Err(ProcfsError::PermissionDenied(Some(p))) if p == b"/proc/x".to_vec()));
    let failed = io.write_value(&request, FileWrite::NotWritten(os(22)));
    assert!(matches!(failed, Err(ProcfsError::Io(_, Some(p))) if p == b"/proc/x".to_vec()));
    assert!(io.write_value_to(Ok(())).is_ok());
    assert!(matches!(io.write_value_to(Err(os(22))), Err(ProcfsError::Io(_, None))));
}

#[test]
fn the_contents_of_a_current_file_are_taken() {
    let procfs = AsyncProcfs { root: b"/proc/".to_vec() };
    assert!(matches!(procfs.current("stat", FileRead::Read(9)), Ok(9)));
    let missing: Result<i32, ProcfsError> = procfs.current("stat", FileRead::NotOpened(os(2)));
    assert!(matches!(missing, Err(ProcfsError::NotFound(Some(p))) if p == b"/proc/stat".to_vec()));
    let failed: Result<i32, ProcfsError> = procfs.current("stat", FileRead::NotRead(os(2)));
    assert!(matches!(failed, Err(ProcfsError::NotFound(None))));
}

#[test]
fn a_file_gets_new_contents() {
    let whole = Access { write: true, create: true, truncate: true };
    let request = WriteRequest::file(b"sys/x", b"\xff data");
    assert_eq!((request.path.as_slice(), request.data.as_slice()), (&b"sys/x"[..], &b"\xff data"[..]));
    assert_eq!(request.access(), whole);
    let value = WriteRequest::value(b"sys/y", "-5 \u{e9}");
    assert_eq!((value.path.as_slice(), value.data.as_slice()), (&b"sys/y"[..], &b"-5 \xc3\xa9"[..]));
    assert_eq!(value.access(), whole);
    assert_eq!(replacing(), whole);
    assert_eq!(updating(), Access { write: true, create: false, truncate: false });
}

#[test]
fn a_written_value_is_the_value_that_is_read() {
    let procfs = AsyncProcfs { root: b"/proc".to_vec() };
    let request = WriteRequest::value(b"sys/x", "12 34");
    let content = String::from_utf8(request.data).unwrap();
    assert_eq!(procfs.io().read_value(b"sys/x", FileRead::Read(content)).unwrap(), "12 34");
}
