use brush_wasm::env::Environment;
use brush_wasm::error::{IoError, IoErrorKind, ShellError};
use brush_wasm::open_files::OpenFiles;
use brush_wasm::search::compared_text;
use brush_wasm::shell::{referenced_fd, split_paths, Shell};
use brush_wasm::vfs::{
    set_wasm_vfs, set_wasm_vfs_extended, wasm_file_exists, wasm_list_dir, wasm_mkdir,
    wasm_open_file, wasm_open_file_for_read, wasm_remove, wasm_stat, FileOpenMode, VfsHook,
};
use brush_wasm::wasm_vfs::{VfsDirEntry, VfsStat};

type Exists = fn(&(), &str) -> bool;
type Open = fn((), &str, bool, bool, bool, bool) -> ((), Result<String, IoError>);

fn shell(dir: &str) -> Shell<String> {
    Shell::new(dir)
}

fn no_metadata(_: &str) -> Result<bool, IoError> {
    panic!("metadata is not needed")
}

fn enter(s: &mut Shell<String>, dir: &str) -> Result<(), ShellError> {
    let hook = VfsHook::registered(|_: &(), _: &str| true);
    s.set_working_dir(&hook, &(), no_metadata, dir)
}

#[test]
fn absolute_paths() {
    let s = shell("/home/me");
    assert_eq!(s.absolute_path("x/y"), "/home/me/x/y");
    assert_eq!(s.absolute_path("/x"), "/x");
    assert_eq!(s.absolute_path(""), "");
    assert_eq!(s.absolute_path("../x"), "/home/me/../x");
    assert_eq!(shell("/").absolute_path("x"), "/x");
}

#[test]
fn working_dir_is_normalized() {
    let mut s = shell("/");
    enter(&mut s, "/A/foo/../B/./").unwrap();
    assert_eq!(s.working_dir, "/A/B");
    assert_eq!(s.env.get_str("PWD"), Some("/A/B".to_string()));
    assert_eq!(s.env.get_str("OLDPWD"), Some("/".to_string()));
    enter(&mut s, "../../..").unwrap();
    assert_eq!(s.working_dir, "/");
    enter(&mut s, "a//b/").unwrap();
    assert_eq!(s.working_dir, "/a/b");
    enter(&mut s, "").unwrap();
    assert_eq!(s.working_dir, ".");
}

#[test]
fn normalizing_again_changes_nothing() {
    for dir in ["/a/../..//b/./c/", "x/..", "../y", "/", "a/b/../../.."] {
        let mut s = shell("/");
        s.enter_directory(dir).unwrap();
        let once = s.working_dir.clone();
        s.enter_directory(&once).unwrap();
        assert_eq!(s.working_dir, once);
    }
    let mut s = shell("/");
    s.enter_directory("x/..").unwrap();
    assert_eq!(s.working_dir, ".");
    s.enter_directory("../y").unwrap();
    assert_eq!(s.working_dir, "y");
}

#[test]
fn changing_back_leads_back() {
    let mut s = shell("/start/here");
    enter(&mut s, "../there").unwrap();
    assert_eq!(s.working_dir, "/start/there");
    let back = s.env.get_str("OLDPWD").unwrap();
    enter(&mut s, &back).unwrap();
    assert_eq!(s.working_dir, "/start/here");
    assert_eq!(s.env.get_str("OLDPWD"), Some("/start/there".to_string()));
}

#[test]
fn readonly_variables_stop_a_change() {
    let mut s = shell("/a");
    s.env.set_readonly("PWD", "/a");
    let e = enter(&mut s, "/b").unwrap_err();
    assert!(matches!(e, ShellError::ReadonlyVariable(n) if n == "PWD"));
    assert_eq!(s.working_dir, "/a");
    let mut s = shell("/a");
    s.env.set_readonly("OLDPWD", "/z");
    let e = enter(&mut s, "/b").unwrap_err();
    assert!(matches!(e, ShellError::ReadonlyVariable(n) if n == "OLDPWD"));
    assert_eq!(s.working_dir, "/b");
    assert_eq!(s.env.get_str("PWD"), Some("/b".to_string()));
    assert_eq!(s.env.get_str("OLDPWD"), Some("/z".to_string()));
}

#[test]
fn metadata_decides_without_a_virtual_file_system() {
    let none: VfsHook<Exists> = VfsHook::unregistered();
    let metadata = |p: &str| match p {
        "/dir" => Ok(true),
        "/file" => Ok(false),
        _ => Err(IoError::new(IoErrorKind::NotFound, "gone")),
    };
    let mut s = shell("/");
    s.set_working_dir(&none, &(), metadata, "dir").unwrap();
    assert_eq!(s.working_dir, "/dir");
    let e = s.set_working_dir(&none, &(), metadata, "/file").unwrap_err();
    assert!(matches!(e, ShellError::NotADirectory(p) if p == "/file"));
    let e = s.set_working_dir(&none, &(), metadata, "/").unwrap_err();
    assert!(matches!(e, ShellError::Io(e) if e.message == "gone"));
    assert_eq!(s.working_dir, "/dir");
    let deny = VfsHook::registered(|_: &(), _: &str| false);
    s.set_working_dir(&deny, &(), no_metadata, "/").unwrap();
    assert_eq!(s.working_dir, "/");
    s.set_working_dir(&deny, &(), metadata, "/dir").unwrap();
    assert_eq!(s.working_dir, "/dir");
}

#[test]
fn home_is_shortened_to_a_tilde() {
    let mut s = shell("/");
    let user = Some("/root".to_string());
    assert_eq!(s.home_dir(user.clone()), user);
    assert_eq!(s.tilde_shorten("/root/x".to_string(), user.clone()), "~/x");
    assert_eq!(s.tilde_shorten("/rootx".to_string(), user.clone()), "~x");
    assert_eq!(s.tilde_shorten("/root/x".to_string(), None), "/root/x");
    s.env.update_or_add("HOME", "/h").unwrap();
    assert_eq!(s.tilde_shorten("/h".to_string(), user.clone()), "~");
    assert_eq!(s.tilde_shorten("/root/x".to_string(), user), "/root/x");
    s.env.update_or_add("HOME", "").unwrap();
    assert_eq!(s.tilde_shorten("x".to_string(), None), "~x");
}

#[test]
fn executables_are_searched_along_the_path() {
    let mut s = shell("/");
    s.env.update_or_add("PATH", "/bin::/usr/bin/:rel").unwrap();
    assert_eq!(split_paths("/bin::x"), ["/bin", "", "x"]);
    let none = |_: &str| panic!("a name is not looked up in listings");
    let all = s.find_executables_in_path("ls", none, |_: &str| true);
    assert_eq!(all, ["/bin/ls", "ls", "/usr/bin/ls", "rel/ls"]);
    let some = s.find_executables_in_path("ls", none, |p: &str| p.contains("usr") || p == "rel/ls");
    assert_eq!(some, ["/usr/bin/ls", "rel/ls"]);
    let first = s.find_first_executable_in_path("ls", &|p: &str| p.contains("usr") || p == "rel/ls");
    assert_eq!(first, Some("/usr/bin/ls".to_string()));
    assert_eq!(s.find_first_executable_in_path("ls", &|_: &str| false), None);
    assert_eq!(
        s.find_first_executable_in_path("/x/ls", &|_: &str| true),
        Some("/x/ls".to_string())
    );
    let unset = shell("/").find_executables_in_path("ls", none, |_: &str| true);
    assert_eq!(unset, ["ls"]);
}

fn listed(dir: &str) -> Vec<String> {
    let names: &[&str] = match dir {
        "/a" => &["lsof", "cat", "ls", "Less", ".ls"],
        "/b" => &["ls", "l2", "ab-c"],
        _ => &[],
    };
    names.iter().map(|n| n.to_string()).collect()
}

fn found(pattern: &str) -> Vec<String> {
    let mut s = shell("/");
    s.env.update_or_add("PATH", "/a:/none:/b").unwrap();
    s.find_executables_in_path(pattern, listed, |p: &str| p != "/b/ls" && !p.ends_with("missing"))
}

#[test]
fn executables_match_glob_patterns() {
    assert_eq!(found("ls*"), ["/a/lsof", "/a/ls"]);
    assert_eq!(found("l?"), ["/a/ls", "/b/l2"]);
    assert_eq!(found("[a-c]*"), ["/a/cat", "/b/ab-c"]);
    assert_eq!(found("*"), ["/a/lsof", "/a/cat", "/a/ls", "/a/Less", "/a/.ls", "/b/l2", "/b/ab-c"]);
    assert_eq!(found("?"), Vec::<String>::new());
    assert_eq!(found("ls"), ["/a/ls", "/none/ls"]);
    assert_eq!(found("[missing"), Vec::<String>::new());
}

#[test]
fn executables_match_prefixes() {
    let mut s = shell("/");
    s.env.update_or_add("PATH", "/a:/b").unwrap();
    let find = |prefix: &str, ci: bool| {
        s.find_executables_in_path_with_prefix(prefix, ci, listed, |p: &str| p != "/b/ls")
    };
    assert_eq!(find("l", false), ["/a/lsof", "/a/ls", "/b/l2"]);
    assert_eq!(find("L", false), ["/a/Less"]);
    assert_eq!(find("L", true), ["/a/lsof", "/a/ls", "/a/Less", "/b/l2"]);
    assert_eq!(find("lS", true), ["/a/lsof", "/a/ls"]);
    assert_eq!(compared_text("ÄLs", true), "äls");
    assert_eq!(compared_text("ÄLs", false), "ÄLs");
    assert_eq!(find("", false).len(), 7);
    assert_eq!(find("zz", true), Vec::<String>::new());
}

#[test]
fn found_executables_are_remembered() {
    let mut s = shell("/");
    s.env.update_or_add("PATH", "/a:/b").unwrap();
    assert_eq!(s.find_first_executable_in_path_using_cache("x", &|_: &str| false), None);
    let r = s.find_first_executable_in_path_using_cache("x", &|p: &str| p == "/b/x");
    assert_eq!(r, Some("/b/x".to_string()));
    let r = s.find_first_executable_in_path_using_cache("x", &|_: &str| panic!("is remembered"));
    assert_eq!(r, Some("/b/x".to_string()));
    assert_eq!(s.program_location_cache.get("y"), None);
}

#[test]
fn descriptors_are_recognized() {
    assert_eq!(referenced_fd("/dev/fd/3"), Some(3));
    assert_eq!(referenced_fd("/dev//fd/./12/"), Some(12));
    assert_eq!(referenced_fd("/dev/fd/-1"), Some(-1));
    assert_eq!(referenced_fd("/dev/fd/x"), None);
    assert_eq!(referenced_fd("/dev/fd/.."), None);
    assert_eq!(referenced_fd("dev/fd/3"), None);
    assert_eq!(referenced_fd("/dev/fd"), None);
    assert_eq!(referenced_fd("/dev/fd/3/4"), None);
    assert_eq!(referenced_fd("/"), None);
}

#[test]
fn files_are_opened_where_they_are() {
    let s = shell("/dev");
    let try_fd = |fd: i32| if fd == 3 { Some("three".to_string()) } else { None };
    let copy = |f: String| Ok(format!("copy of {f}"));
    let native = |_: (), p: &str| ((), Ok(format!("native {p}")));
    let none: VfsHook<Open> = VfsHook::unregistered();
    let vfs: VfsHook<Open> =
        VfsHook::registered(|_, p, r, w, c, a| ((), Ok(format!("{p} {r} {w} {c} {a}"))));
    let open = |path: &str, hook: &VfsHook<Open>| {
        s.open_file(path, try_fd, copy, hook, (), native).1.unwrap()
    };
    assert_eq!(open("fd/3", &none), "copy of three");
    assert_eq!(open("fd/4", &none), "native /dev/fd/4");
    assert_eq!(open("fd/4", &vfs), "/dev/fd/4 true false false false");
    assert_eq!(open("/x", &none), "native /x");
    let mode = FileOpenMode { write: true, append: true, ..FileOpenMode::default() };
    let r = s.open_file_with_mode("/x", Some(mode), try_fd, copy, &vfs, (), native);
    assert_eq!(r.1.unwrap(), "/x false true false true");
    let r = s.open_file_with_mode("/x", None, try_fd, copy, &vfs, (), native);
    assert_eq!(r.1.unwrap(), "/x false false false false");
}

#[test]
fn open_files_are_replaced() {
    let mut s = shell("/");
    s.replace_open_files(vec![(1, "a".to_string()), (2, "b".to_string()), (1, "c".to_string())]);
    assert_eq!(s.persistent_open_files().get(1), Some(&"c".to_string()));
    assert_eq!(s.persistent_open_files().get(2), Some(&"b".to_string()));
    assert_eq!(s.persistent_open_files().get(0), None);
    s.replace_open_files(Vec::new());
    assert_eq!(s.persistent_open_files().get(1), None);
    assert_eq!(OpenFiles::<u8>::new().get(1), None);
}

#[test]
fn variables_are_set_and_kept() {
    let mut env = Environment::new();
    assert_eq!(env.get_str("A"), None);
    env.update_or_add("A", "1").unwrap();
    env.update_or_add("B", "2").unwrap();
    env.update_or_add("A", "3").unwrap();
    assert_eq!(env.get_str("A"), Some("3".to_string()));
    assert_eq!(env.get_str("B"), Some("2".to_string()));
    env.set_readonly("A", "4");
    assert!(env.update_or_add("A", "5").is_err());
    assert_eq!(env.get_str("A"), Some("4".to_string()));
}

#[test]
fn hooks_without_callbacks_find_nothing() {
    let exists: VfsHook<Exists> = VfsHook::unregistered();
    let list: VfsHook<fn(&(), &str) -> Option<Vec<VfsDirEntry>>> = VfsHook::unregistered();
    let stat: VfsHook<fn(&(), &str) -> Option<VfsStat>> = VfsHook::unregistered();
    let remove: VfsHook<fn(u8, &str) -> (u8, bool)> = VfsHook::unregistered();
    let mkdir: VfsHook<fn(u8, &str) -> u8> = VfsHook::unregistered();
    let open: VfsHook<Open> = VfsHook::unregistered();
    assert!(!wasm_file_exists(&exists, &(), "/"));
    assert!(wasm_list_dir(&list, &(), "/").is_none());
    assert!(wasm_stat(&stat, &(), "/").is_none());
    assert_eq!(wasm_remove(&remove, 7, "/"), (7, false));
    assert_eq!(wasm_mkdir(&mkdir, 7, "/"), 7);
    let e = wasm_open_file_for_read(&open, (), "/").1.unwrap_err();
    assert_eq!(e.kind, IoErrorKind::NotFound);
    assert_eq!(e.message, "no VFS registered");
}

#[test]
fn registered_callbacks_are_called() {
    let mut open: VfsHook<Open> = VfsHook::unregistered();
    let mut exists: VfsHook<Exists> = VfsHook::unregistered();
    set_wasm_vfs(
        &mut open,
        &mut exists,
        |_, p, r, w, c, a| ((), Ok(format!("{p} {r} {w} {c} {a}"))),
        |_, p| p == "/there",
    );
    assert!(wasm_file_exists(&exists, &(), "/there"));
    assert!(!wasm_file_exists(&exists, &(), "/gone"));
    assert_eq!(wasm_open_file_for_read(&open, (), "/f").1.unwrap(), "/f true false false false");
    let r = wasm_open_file(&open, (), "/f", false, true, true, true);
    assert_eq!(r.1.unwrap(), "/f false true true true");

    let mut list: VfsHook<fn(&(), &str) -> Option<Vec<VfsDirEntry>>> = VfsHook::unregistered();
    let mut remove: VfsHook<fn(Vec<String>, &str) -> (Vec<String>, bool)> = VfsHook::unregistered();
    let mut stat: VfsHook<fn(&(), &str) -> Option<VfsStat>> = VfsHook::unregistered();
    let mut mkdir: VfsHook<fn(Vec<String>, &str) -> Vec<String>> = VfsHook::unregistered();
    set_wasm_vfs_extended(
        &mut list,
        &mut remove,
        &mut stat,
        &mut mkdir,
        |_, p| Some(vec![(p.to_string(), 1, false, 2)]),
        |mut w, p| {
            let before = w.len();
            w.retain(|x| x != p);
            let removed = w.len() < before;
            (w, removed)
        },
        |_, _| Some((1, true, 2)),
        |mut w, p| {
            w.push(p.to_string());
            w
        },
    );
    assert_eq!(wasm_list_dir(&list, &(), "/d").unwrap(), [("/d".to_string(), 1, false, 2)]);
    assert_eq!(wasm_stat(&stat, &(), "/d"), Some((1, true, 2)));
    let w = wasm_mkdir(&mkdir, Vec::new(), "/d");
    assert_eq!(w, ["/d"]);
    let (w, removed) = wasm_remove(&remove, w, "/e");
    assert!(!removed);
    let (w, removed) = wasm_remove(&remove, w, "/d");
    assert!(removed && w.is_empty());
}
