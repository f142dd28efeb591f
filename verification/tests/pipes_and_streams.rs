use brush_wasm::error::IoErrorKind;
use brush_wasm::pipe::{pipe, PollRead, MAX_PIPE_BUFFER_BYTES};
use brush_wasm::builtins::registry::Builtin;
use brush_wasm::session::{BrushShell, BuiltinSet, StandardStream};
use brush_wasm::streams::{EmptyInputStream, InMemoryStream};
use brush_wasm::vfs::{VfsHook, VfsHooks};

fn no_hooks() -> VfsHooks<u8, u8, u8, u8, u8, u8> {
    VfsHooks {
        open: VfsHook::unregistered(),
        exists: VfsHook::unregistered(),
        list_dir: VfsHook::unregistered(),
        remove: VfsHook::unregistered(),
        stat: VfsHook::unregistered(),
        mkdir: VfsHook::unregistered(),
    }
}

fn new_shell() -> BrushShell {
    BrushShell::create(&mut no_hooks(), 1, 2, 3, 4, 5, 6)
}

fn bytes_of(r: PollRead) -> Vec<u8> {
    match r {
        PollRead::Data(bytes) => bytes,
        _ => panic!("expected data"),
    }
}

#[test]
fn pipe_gives_back_what_was_written_in_order() {
    let mut p = pipe();
    assert_eq!(p.write(b"hello ").unwrap(), (6, false));
    assert_eq!(p.write(b"world").unwrap(), (5, false));
    let mut buf = [b'.'; 4];
    assert_eq!(p.read(&mut buf), 4);
    assert_eq!(&buf, b"hell");
    assert_eq!(bytes_of(p.poll_read(3)), b"o w");
    assert_eq!(p.read_pos, 0);
    assert_eq!(p.data, b"orld");
    assert_eq!(bytes_of(p.poll_read(100)), b"orld");
    assert_eq!(p.read(&mut buf), 0);
    assert_eq!(&buf, b"hell");
    assert!(p.data.is_empty());
}

#[test]
fn pipe_keeps_read_bytes_up_to_half() {
    let mut p = pipe();
    p.write(b"abcd").unwrap();
    let mut buf = [0u8; 2];
    assert_eq!(p.read(&mut buf), 2);
    assert_eq!((p.read_pos, p.data.len()), (2, 4));
    let mut one = [0u8; 1];
    assert_eq!(p.read(&mut one), 1);
    assert_eq!(one, [b'c']);
    assert_eq!((p.read_pos, p.data.len()), (0, 1));
}

#[test]
fn pipe_closes_with_its_last_writer() {
    let mut p = pipe();
    assert!(matches!(p.poll_read(1), PollRead::Pending));
    p.add_writer();
    assert!(!p.drop_writer());
    assert!(!p.writer_closed);
    assert_eq!(p.write(b"x").unwrap(), (1, true));
    assert!(!p.drop_writer());
    assert!(p.writer_closed);
    let e = p.write(b"y").unwrap_err();
    assert_eq!(e.kind, IoErrorKind::BrokenPipe);
    assert_eq!(e.message, "pipe closed");
    assert_eq!(bytes_of(p.poll_read(9)), b"x");
    assert!(matches!(p.poll_read(1), PollRead::Eof));
}

#[test]
fn closing_wakes_a_waiting_reader() {
    let mut p = pipe();
    assert!(matches!(p.poll_read(1), PollRead::Pending));
    assert!(p.drop_writer());
    assert!(matches!(p.poll_read(1), PollRead::Eof));
}

#[test]
fn pipe_refuses_more_than_its_limit() {
    let mut p = pipe();
    let chunk = vec![7u8; MAX_PIPE_BUFFER_BYTES / 2];
    assert!(p.write(&chunk).is_ok());
    assert!(p.write(&chunk).is_ok());
    let e = p.write(b"z").unwrap_err();
    assert_eq!(e.kind, IoErrorKind::Other);
    assert_eq!(e.message, "pipe buffer exceeded 64 MB limit; use pipelines for large data");
    assert_eq!(p.data.len(), MAX_PIPE_BUFFER_BYTES);
    assert!(p.write(b"").is_ok());
}

#[test]
fn captured_stream_keeps_writes_until_taken() {
    let mut s = InMemoryStream::new();
    assert_eq!(s.write(b"ab"), 2);
    assert_eq!(s.write(b"c"), 1);
    let mut buf = [1u8; 2];
    assert_eq!(s.read(&mut buf), 0);
    assert_eq!(buf, [1, 1]);
    assert_eq!(s.take_contents(), b"abc");
    assert_eq!(s.take_contents(), b"");
}

#[test]
fn empty_input_ends_at_once_and_drops_writes() {
    let s = EmptyInputStream;
    let mut buf = [1u8; 2];
    assert_eq!(s.read(&mut buf), 0);
    assert_eq!(buf, [1, 1]);
    assert_eq!(s.write(b"abc"), 3);
}

#[test]
fn created_shell_is_set_up_for_a_page() {
    let mut hooks = no_hooks();
    let shell = BrushShell::create(&mut hooks, 1, 2, 3, 4, 5, 6);
    let registered = [
        hooks.open.callback,
        hooks.exists.callback,
        hooks.list_dir.callback,
        hooks.remove.callback,
        hooks.stat.callback,
        hooks.mkdir.callback,
    ];
    assert_eq!(registered, [Some(1), Some(2), Some(3), Some(4), Some(5), Some(6)]);
    assert_eq!(shell.config.default_builtins, BuiltinSet::BashMode);
    assert_eq!(shell.builtins.get("find"), Some(&Builtin::Find));
    assert_eq!(shell.builtins.get("declare"), None);
    assert!(!shell.config.interactive);
    assert!(!shell.config.load_profile);
    assert!(!shell.config.load_rc);
    assert!(!shell.config.inherit_env);
    assert!(!shell.config.skip_well_known_vars);
    assert!(shell.config.command_string_mode);
    assert_eq!(shell.config.working_dir, "/");
    assert_eq!(shell.open_files.get(0), Some(&StandardStream::EmptyInput));
    assert_eq!(shell.open_files.get(1), Some(&StandardStream::CapturedStdout));
    assert_eq!(shell.open_files.get(2), Some(&StandardStream::CapturedStderr));
    assert_eq!(shell.open_files.get(3), None);
}

#[test]
fn execution_gives_what_this_script_wrote() {
    let mut shell = new_shell();
    shell.stdout_stream.write(b"left over");
    let run = |n: u32, mut out: InMemoryStream, mut err: InMemoryStream, s: &str| {
        out.write(s.as_bytes());
        out.write("ö\n".as_bytes());
        err.write(b"\xff");
        (n + 1, out, err, Ok(3))
    };
    let (n, r) = shell.execute(5, "echo", run);
    assert_eq!(n, 6);
    let r = r.unwrap();
    assert_eq!(r.stdout, "echoö\n");
    assert_eq!(r.stderr, "\u{fffd}");
    assert_eq!(r.exit_code, 3);
    assert!(shell.stdout_stream.buf.is_empty());
}

#[test]
fn later_scripts_run_in_the_state_that_earlier_ones_left() {
    let run = |vars: Vec<String>, mut out: InMemoryStream, err: InMemoryStream, s: &str| {
        let mut vars = vars;
        if let Some(v) = s.strip_prefix("set ") {
            vars.push(v.to_string());
        } else {
            out.write(vars.join(",").as_bytes());
        }
        (vars, out, err, Ok(0))
    };
    let mut shell = new_shell();
    let (state, _) = shell.execute(Vec::new(), "set x=5", run);
    let (state, _) = shell.execute(state, "set y=6", run);
    let (state, r) = shell.execute(state, "show", run);
    assert_eq!(r.unwrap().stdout, "x=5,y=6");
    assert_eq!(state, ["x=5", "y=6"]);
}

#[test]
fn interpreter_that_cannot_be_built_is_reported() {
    assert_eq!(BrushShell::take_interpreter(Ok(7)), Ok(7));
    assert_eq!(
        BrushShell::take_interpreter::<u8>(Err("why".to_string())),
        Err("Failed to create shell: why".to_string())
    );
}

#[test]
fn wrong_ends_refuse() {
    let mut p = pipe();
    p.write(b"ab").unwrap();
    let e = p.write_to_reader(b"x").unwrap_err();
    assert_eq!((e.kind, e.message.as_str()), (IoErrorKind::Other, "pipe reader is not writable"));
    let mut buf = [1u8; 2];
    let e = p.read_from_writer(&mut buf).unwrap_err();
    assert_eq!((e.kind, e.message.as_str()), (IoErrorKind::Other, "pipe writer is not readable"));
    assert_eq!(buf, [1, 1]);
    assert_eq!((p.data.as_slice(), p.read_pos, p.writers), (&b"ab"[..], 0, 1));
}

#[test]
fn bytes_that_were_read_count_until_they_are_half() {
    let mut p = pipe();
    p.write(&vec![7u8; MAX_PIPE_BUFFER_BYTES]).unwrap();
    let mut half = vec![0u8; MAX_PIPE_BUFFER_BYTES / 2];
    assert_eq!(p.read(&mut half), half.len());
    assert!(p.write(b"x").is_err());
    assert_eq!(bytes_of(p.poll_read(1)), [7]);
    assert!(p.write(b"x").is_ok());
    assert_eq!(p.data.len(), MAX_PIPE_BUFFER_BYTES / 2);
}

#[test]
fn failed_execution_gives_its_error() {
    let mut shell = new_shell();
    let run = |n: u32, mut out: InMemoryStream, err: InMemoryStream, _: &str| {
        out.write(b"partial");
        (n + 1, out, err, Err("no such thing".to_string()))
    };
    let (n, e) = shell.execute(5, "x", run);
    assert_eq!(n, 6);
    assert_eq!(e.unwrap_err(), "Execution error: no such thing");
    assert_eq!(shell.stdout_stream.buf, b"partial");
    shell.begin_execution();
    assert!(shell.stdout_stream.buf.is_empty());
    let r = shell.finish_execution(Ok(0)).unwrap();
    assert_eq!((r.stdout.as_str(), r.exit_code), ("", 0));
}
