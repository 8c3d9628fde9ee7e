use async_procfs::convert::IntoOption;
use async_procfs::process::cmdline::read_arguments;

#[test]
fn options_and_results_become_options() {
    assert_eq!(<Option<u8> as IntoOption<u8>>::into_option(Some(3)), Some(3));
    assert_eq!(<Option<u8> as IntoOption<u8>>::into_option(None), None);
    let ok: Result<u8, &str> = Ok(4);
    let err: Result<u8, &str> = Err("no");
    assert_eq!(IntoOption::into_option(ok), Some(4));
    assert_eq!(IntoOption::into_option(err), None);
}

#[test]
fn arguments_are_split_at_nul() {
    assert_eq!(read_arguments("cat\0-n\0\0a b\0"), vec!["cat", "-n", "a b"]);
}
