use async_procfs::bytes::{append_bytes, copied, copy_range, same_bytes};
use async_procfs::error::{ErrorKind, FileRead, IoFailure, ProcfsError};
use async_procfs::kernel::Version;
use async_procfs::number::{decimal_bytes, decimal_text, read_signed, read_unsigned};
use async_procfs::open::{descriptor_flags, listing_flags, path_handles, process_flags, task_flags, OpenFlags};
use async_procfs::path::{final_name_range, join};
use async_procfs::procfs::{trimmed, AsyncProcfs};
use async_procfs::sys::AsyncProcfsSysKernel;
use async_procfs::text::{char_pieces, chars_of, is_whitespace, word_ranges};
use std::path::{Component, Path};

#[test]
fn white_space_is_that_of_std() {
    for code in 0..0x11_0000u32 {
        if let Some(c) = char::from_u32(code) {
            assert_eq!(is_whitespace(c), c.is_whitespace(), "{:?}", c);
        }
    }
}

#[test]
fn trimming_is_that_of_std() {
    for text in ["", " ", "a", "  a b\t\n", "\u{85}x\u{3000}", "\u{200b}x", " \n\t "] {
        assert_eq!(trimmed(text), text.trim());
    }
}

#[test]
fn words_are_those_of_std() {
    for text in ["", " ", "a", "a b", "  a\t\tbc\nd ", "\u{2003}ä\u{2003}ö"] {
        let chars = chars_of(text);
        let own: Vec<String> = word_ranges(&chars).iter().map(|r| chars[r.0..r.1].iter().collect()).collect();
        let std: Vec<&str> = text.split_whitespace().collect();
        assert_eq!(own, std);
    }
}

#[test]
fn pieces_are_those_of_std() {
    for text in ["", "a", "/", "a/b", "//a//"] {
        let chars = chars_of(text);
        let own: Vec<String> = char_pieces(&chars, '/').iter().map(|r| chars[r.0..r.1].iter().collect()).collect();
        let std: Vec<&str> = text.split('/').collect();
        assert_eq!(own, std);
    }
}

#[test]
fn unsigned_numbers_are_those_of_std() {
    for text in ["", "+", "-", "0", "+7", "-0", "-1", "007", "65535", "65536", "18446744073709551615",
        "18446744073709551616", "99999999999999999999", "1 ", "ff", "FF", "1FF", "fffffffff", "٣"] {
        let chars = chars_of(text);
        let len = chars.len();
        assert_eq!(read_unsigned(&chars, 0, len, 10, u64::MAX), text.parse::<u64>().ok(), "{}", text);
        let small = text.parse::<u16>().ok().map(|n| n as u64);
        assert_eq!(read_unsigned(&chars, 0, len, 10, u16::MAX as u64), small, "{}", text);
        let hex = u32::from_str_radix(text, 16).ok().map(|n| n as u64);
        assert_eq!(read_unsigned(&chars, 0, len, 16, u32::MAX as u64), hex, "{}", text);
    }
}

#[test]
fn signed_numbers_are_those_of_std() {
    for text in ["", "+", "-", "0", "+7", "-0", "-1", "--1", "-+1", "2147483647", "2147483648", "-2147483648",
        "-2147483649", "32767", "32768", "-32768", "-32769", " 1"] {
        let chars = chars_of(text);
        let len = chars.len();
        assert_eq!(read_signed(&chars, 0, len, i32::MIN, i32::MAX), text.parse::<i32>().ok(), "{}", text);
        let small = text.parse::<i16>().ok().map(|n| n as i32);
        assert_eq!(read_signed(&chars, 0, len, i16::MIN as i32, i16::MAX as i32), small, "{}", text);
    }
}

#[test]
fn numbers_are_written_as_std_writes_them() {
    for n in [0, 1, 9, 10, 99, 100, 12345, -1, -10, i32::MAX, i32::MIN] {
        assert_eq!(decimal_bytes(n), n.to_string().into_bytes());
        assert_eq!(decimal_text(n), n.to_string());
        let chars = chars_of(&decimal_text(n));
        assert_eq!(read_signed(&chars, 0, chars.len(), i32::MIN, i32::MAX), Some(n));
    }
}

#[test]
fn paths_are_joined_as_std_joins_them() {
    for base in ["", "/", "/proc", "/proc/", "proc", "//"] {
        for path in ["", "self", "/abs", "net/tcp", "."] {
            let std = Path::new(base).join(path);
            assert_eq!(join(base.as_bytes(), path.as_bytes()), std.to_str().unwrap().as_bytes(), "{} {}", base, path);
        }
    }
}

#[test]
fn joining_is_associative() {
    for (a, b, c) in [("/proc", "1", "fd"), ("/proc/", "/x", "y"), ("", "a", "/b"), ("a", "", "b")] {
        let left = join(&join(a.as_bytes(), b.as_bytes()), c.as_bytes());
        let right = join(a.as_bytes(), &join(b.as_bytes(), c.as_bytes()));
        assert_eq!(left, right);
    }
    assert_eq!(join(b"/proc", b"x")[0], b'/');
}

#[test]
fn final_names_are_those_of_std() {
    for path in ["", ".", "..", "/", "self", "/proc/self", "12/", "12/.", "12/..", "./12", "a//b//", "../x"] {
        let chars = chars_of(path);
        let own: Option<String> = final_name_range(&chars).map(|r| chars[r.0..r.1].iter().collect());
        let std = Path::new(path).components().next_back().and_then(|c| match c {
            Component::Normal(s) => Some(s.to_str().unwrap().to_string()),
            _ => None,
        });
        assert_eq!(own, std, "{}", path);
    }
}

#[test]
fn bytes_are_copied_and_compared() {
    let mut r = vec![1, 2];
    append_bytes(&mut r, &[3]);
    assert_eq!(r, vec![1, 2, 3]);
    assert_eq!(copy_range(&r, 1, 3), vec![2, 3]);
    assert_eq!(copied(&r), r);
    assert!(same_bytes(&r, &[1, 2, 3]));
    assert!(!same_bytes(&r, &[1, 2, 4]));
    assert!(!same_bytes(&r, &[1, 2]));
}

#[test]
fn versions_are_ordered() {
    let old = Version::new(2, 6, 39);
    let first = Version::new(3, 6, 0);
    assert!(old.is_before(&first));
    assert!(!first.is_before(&old));
    assert!(!first.is_before(&first));
    assert!(Version::new(3, 5, 9).is_before(&first));
    assert!(first.is_before(&Version::new(3, 6, 1)));
}

#[test]
fn old_kernels_get_no_path_handles() {
    assert!(!path_handles(Some(Version::new(2, 6, 39))));
    assert!(!path_handles(Some(Version::new(3, 5, 65535))));
    assert!(path_handles(Some(Version::new(3, 6, 0))));
    assert!(path_handles(Some(Version::new(6, 1, 0))));
    assert!(path_handles(None));
}

#[test]
fn each_file_has_its_flags() {
    let flags = |path, directory, no_follow, close_on_exec| OpenFlags { path, directory, no_follow, close_on_exec };
    assert_eq!(process_flags(None), flags(true, true, false, true));
    assert_eq!(process_flags(Some(Version::new(3, 5, 0))), flags(false, true, false, true));
    assert_eq!(descriptor_flags(None), flags(true, false, true, true));
    assert_eq!(descriptor_flags(Some(Version::new(3, 5, 0))), flags(false, false, true, true));
    assert_eq!(task_flags(), flags(true, true, false, false));
    assert_eq!(listing_flags(), flags(false, true, false, false));
}

#[test]
fn versions_are_read() {
    assert_eq!(Version::read("3.16.0-6-amd64").unwrap(), Version::new(3, 16, 0));
    assert_eq!(Version::read("6.1.65535.7").unwrap(), Version::new(6, 1, 65535));
    for text in ["", "6.1", "6.1-rc1", "256.1.0", "6.1.65536", "6..1", "v6.1.0", "6.1.", "+6.1.0"] {
        assert!(matches!(Version::read(text), Err(ProcfsError::Other(_))), "{}", text);
    }
}

#[test]
fn the_version_of_the_kernel_is_read() {
    let procfs = AsyncProcfs { root: b"/proc".to_vec() };
    let sys = procfs.sys();
    let version = sys.kernel().version(FileRead::Read("5.10.0-8\n".to_string()));
    assert_eq!(version.unwrap(), Version::new(5, 10, 0));
    assert_eq!(AsyncProcfsSysKernel::version_file(), "sys/kernel/osrelease");
    let error = std::io::Error::from_raw_os_error(2);
    let missing = IoFailure { kind: ErrorKind::NotFound, raw_os_error: Some(2), has_cause: false, error };
    let path = b"/proc/sys/kernel/osrelease".to_vec();
    let version = sys.kernel().version(FileRead::NotOpened(missing));
    assert!(matches!(version, Err(ProcfsError::NotFound(Some(p))) if p == path));
}
