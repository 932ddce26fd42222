use adb_metrics::command::{
    current_adb_path, normalize_path, ping_reply, read_output, resolve_adb_path, run_device,
    run_host, set_adb_path, set_bundled_adb_path, try_ping_server, AdbBinary, Invocation, Output,
};
use adb_metrics::error::{AdbError, Missing};

fn s(text: &str) -> String {
    text.to_string()
}

#[test]
fn paths_are_trimmed_and_empty_ones_dropped() {
    assert_eq!(normalize_path(Some(s("  /opt/adb \n"))), Some(s("/opt/adb")));
    assert_eq!(normalize_path(Some(s("   "))), None);
    assert_eq!(normalize_path(Some(s(""))), None);
    assert_eq!(normalize_path(None), None);
}

#[test]
fn custom_path_comes_before_the_bundled_one() {
    let mut bin = AdbBinary::new();
    assert_eq!(resolve_adb_path(&bin), Err(AdbError::NotFound));
    assert_eq!(current_adb_path(&bin), s("adb"));
    set_bundled_adb_path(&mut bin, Some(s(" /res/adb ")), true);
    assert_eq!(resolve_adb_path(&bin), Ok(s("/res/adb")));
    set_adb_path(&mut bin, Some(s("/usr/bin/adb ")));
    assert_eq!(resolve_adb_path(&bin), Ok(s("/usr/bin/adb")));
    assert_eq!(current_adb_path(&bin), s("/usr/bin/adb"));
    set_adb_path(&mut bin, Some(s("  ")));
    assert_eq!(bin.custom, None);
    assert_eq!(current_adb_path(&bin), s("/res/adb"));
    set_adb_path(&mut bin, None);
    assert_eq!(current_adb_path(&bin), s("/res/adb"));
}

#[test]
fn bundled_path_without_a_file_is_not_kept() {
    let mut bin = AdbBinary::new();
    set_bundled_adb_path(&mut bin, Some(s("/res/adb")), true);
    set_bundled_adb_path(&mut bin, Some(s("/gone/adb")), false);
    assert_eq!(bin.bundled, None);
    assert_eq!(resolve_adb_path(&bin), Err(AdbError::NotFound));
}

#[test]
fn host_command_carries_the_arguments() {
    let mut bin = AdbBinary::new();
    assert_eq!(run_host(&bin, &["devices", "-l"]), Err(AdbError::NotFound));
    set_adb_path(&mut bin, Some(s("/usr/bin/adb")));
    assert_eq!(
        run_host(&bin, &["devices", "-l"]),
        Ok(Invocation { program: s("/usr/bin/adb"), args: vec![s("devices"), s("-l")] })
    );
    assert_eq!(run_host(&bin, &[]), Ok(Invocation { program: s("/usr/bin/adb"), args: vec![] }));
}

#[test]
fn device_command_names_the_device_first() {
    let mut bin = AdbBinary::new();
    assert_eq!(run_device(&bin, "emulator-5554", &["shell", "pidof", "app"]), Err(AdbError::NotFound));
    set_adb_path(&mut bin, Some(s("adb")));
    assert_eq!(
        run_device(&bin, "emulator-5554", &["shell", "pidof", "app"]),
        Ok(Invocation {
            program: s("adb"),
            args: vec![s("-s"), s("emulator-5554"), s("shell"), s("pidof"), s("app")],
        })
    );
}

#[test]
fn output_is_read_by_its_status() {
    assert_eq!(read_output(None), Err(AdbError::NotFound));
    assert_eq!(
        read_output(Some(Output { success: true, stdout: s(" 4321\n"), stderr: s("warn") })),
        Ok(s(" 4321\n"))
    );
    assert_eq!(
        read_output(Some(Output { success: false, stdout: s("x"), stderr: s("  error: device offline\n") })),
        Err(AdbError::CommandFailed(s("error: device offline")))
    );
}

#[test]
fn ping_starts_the_server() {
    let mut bin = AdbBinary::new();
    assert_eq!(try_ping_server(&bin), Err(AdbError::Client(s("adb was not found"))));
    set_adb_path(&mut bin, Some(s("adb")));
    assert_eq!(
        try_ping_server(&bin),
        Ok(Invocation { program: s("adb"), args: vec![s("start-server")] })
    );
    assert_eq!(ping_reply(Ok(s("daemon started"))), Ok(()));
    assert_eq!(
        ping_reply(Err(AdbError::CommandFailed(s("cannot bind")))),
        Err(AdbError::Client(s("adb command failed: cannot bind")))
    );
}

#[test]
fn every_failure_has_its_message() {
    assert_eq!(AdbError::NotFound.message(), s("adb was not found"));
    assert_eq!(AdbError::CommandFailed(s("offline")).message(), s("adb command failed: offline"));
    assert_eq!(AdbError::Client(s("x")).message(), s("adb client error: x"));
    assert_eq!(
        AdbError::ParseFailed(Missing::FrameCount).message(),
        s("unexpected adb output: no count of rendered frames")
    );
    assert_eq!(Missing::ProcessId.describe(), "no process of the package is running");
}
