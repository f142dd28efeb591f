use std::collections::BTreeMap;

use brush_wasm::builtins::args::arg_is_cluster;
use brush_wasm::builtins::find::{FindBuiltin, GrepBuiltin};
use brush_wasm::builtins::ls::{sort_entries, LsBuiltin, NativeEntry};
use brush_wasm::builtins::mkdir::MkdirBuiltin;
use brush_wasm::builtins::mv::MvBuiltin;
use brush_wasm::builtins::names::{BasenameBuiltin, DirnameBuiltin};
use brush_wasm::builtins::output::{exit_status, run_utility, CommandOutput};
use brush_wasm::builtins::registry::{all_builtins, get_content, name_of, uutils_builtins, Builtin};
use brush_wasm::builtins::rm::RmBuiltin;
use brush_wasm::builtins::tee::TeeBuiltin;
use brush_wasm::builtins::touch::TouchBuiltin;
use brush_wasm::error::{IoError, IoErrorKind};
use brush_wasm::shell::Shell;
use brush_wasm::vfs::VfsHook;
use brush_wasm::wasm_vfs::{VfsDirEntry, VfsStat};

/// Files by their paths; a directory has no content.
type Files = BTreeMap<String, Option<Vec<u8>>>;

type ListFn = fn(&Files, &str) -> Option<Vec<VfsDirEntry>>;

fn files(list: &[(&str, Option<&[u8]>)]) -> Files {
    list.iter().map(|(p, c)| (p.to_string(), c.map(|b| b.to_vec()))).collect()
}

fn args(list: &[&str]) -> Vec<String> {
    list.iter().map(|a| a.to_string()).collect()
}

fn shell(dir: &str) -> Shell<u8> {
    Shell::new(dir)
}

fn parts(out: &CommandOutput) -> (&str, &str, u8) {
    (&out.stdout, &out.stderr, out.exit_code)
}

fn is_there(w: &Files, p: &str) -> bool {
    w.contains_key(p)
}

/// The stored path that `p` leads to: its names, without the dots.
fn resolved(p: &str) -> String {
    let names: Vec<&str> = p.split('/').filter(|n| !n.is_empty() && *n != ".").collect();
    format!("/{}", names.join("/"))
}

fn list(w: &Files, path: &str) -> Option<Vec<VfsDirEntry>> {
    let p = &resolved(path);
    if !matches!(w.get(p), Some(None)) {
        return None;
    }
    let prefix = if p == "/" { "/".to_string() } else { format!("{p}/") };
    Some(
        w.iter()
            .filter_map(|(k, c)| {
                let rest = k.strip_prefix(&prefix)?;
                if rest.is_empty() || rest.contains('/') {
                    return None;
                }
                let size = c.as_ref().map_or(0, |b| b.len() as u64);
                Some((rest.to_string(), size, c.is_none(), 5))
            })
            .collect(),
    )
}

fn stat(w: &Files, p: &str) -> Option<VfsStat> {
    w.get(&resolved(p)).map(|c| (c.as_ref().map_or(0, |b| b.len() as u64), c.is_none(), 5))
}

fn remove(mut w: Files, p: &str) -> (Files, bool) {
    let removed = w.remove(p).is_some();
    (w, removed)
}

fn mkdir(mut w: Files, p: &str) -> Files {
    w.insert(p.to_string(), None);
    w
}

fn open(mut w: Files, p: &str, _r: bool, write: bool, _c: bool, append: bool) -> (Files, Result<String, IoError>) {
    if p.contains("locked") {
        return (w, Err(IoError::new(IoErrorKind::PermissionDenied, "locked")));
    }
    if write {
        if !append || !w.contains_key(p) {
            w.insert(p.to_string(), Some(Vec::new()));
        }
    } else if !matches!(w.get(p), Some(Some(_))) {
        return (w, Err(IoError::new(IoErrorKind::NotFound, &format!("file not found: {p}"))));
    }
    (w, Ok(p.to_string()))
}

fn read_to_end(w: Files, f: String) -> (Files, Result<Vec<u8>, IoError>) {
    if f.contains("bad") {
        return (w, Err(IoError::new(IoErrorKind::Other, "broken")));
    }
    let content = w[&f].clone().unwrap();
    (w, Ok(content))
}

fn write_all(mut w: Files, f: String, bytes: &Vec<u8>) -> (Files, Result<(), IoError>) {
    if f.contains("full") {
        return (w, Err(IoError::new(IoErrorKind::Other, "no space")));
    }
    w.get_mut(&f).unwrap().as_mut().unwrap().extend(bytes);
    (w, Ok(()))
}

fn ls(dir: &str, w: &Files, list_of_args: &[&str]) -> CommandOutput {
    LsBuiltin::execute(
        &shell(dir),
        &VfsHook::registered(list),
        &VfsHook::registered(stat),
        w,
        &args(list_of_args),
    )
}

fn sample() -> Files {
    files(&[
        ("/", None),
        ("/d", None),
        ("/d/.hidden", Some(b"h")),
        ("/d/a", Some(b"12345")),
        ("/d/sub", None),
        ("/e", None),
        ("/f", Some(&[0u8; 1500])),
    ])
}

#[test]
fn ls_lists_directories() {
    let w = sample();
    assert_eq!(parts(&ls("/d", &w, &["ls"])), ("a  sub  \n", "", 0));
    assert_eq!(parts(&ls("/", &w, &["ls", "-1", "d"])), ("a\nsub\n", "", 0));
    assert_eq!(parts(&ls("/", &w, &["ls", "-a", "d"])), (".hidden  a  sub  \n", "", 0));
    assert_eq!(
        parts(&ls("/", &w, &["ls", "-la", "/d"])),
        (
            "-rw-r--r-- 1 user user        1 .hidden\n-rw-r--r-- 1 user user        5 a\ndrw-r--r-- 1 user user        0 sub\n",
            "",
            0
        )
    );
    assert_eq!(parts(&ls("/", &w, &["ls", "e"])), ("\n", "", 0));
    assert_eq!(parts(&ls("/e", &w, &["ls", "-1"])), ("", "", 0));
}

#[test]
fn ls_shows_single_files() {
    let w = sample();
    assert_eq!(parts(&ls("/", &w, &["ls", "-lh", "f"])), ("-rw-r--r-- 1 user user  1.5K f\n", "", 0));
    assert_eq!(parts(&ls("/", &w, &["ls", "./d/a"])), ("a\n", "", 0));
}

#[test]
fn ls_names_several_paths() {
    let w = sample();
    assert_eq!(parts(&ls("/", &w, &["ls", "d", "e"])), ("d:\na  sub  \n\ne:\n\n", "", 0));
    assert_eq!(
        parts(&ls("/", &w, &["ls", "-1", "d", "nope", "e"])),
        ("d:\na\nsub\n\nnope:\n", "ls: cannot access 'nope': No such file or directory\n", 2)
    );
}

#[test]
fn ls_knows_its_options() {
    let w = sample();
    assert_eq!(parts(&ls("/", &w, &["ls", "-lxy"])), ("", "ls: invalid option -- 'x'\n", 2));
    assert_eq!(parts(&ls("/d", &w, &["ls", "ls"])), ("a  sub  \n", "", 0));
    assert_eq!(
        parts(&ls("/", &w, &["ls", "d", "ls"])),
        ("d:\na  sub  \n\nls:\n", "ls: cannot access 'ls': No such file or directory\n", 2)
    );
    assert_eq!(
        parts(&ls("/", &w, &["ls", "--all"])),
        ("", "ls: cannot access '--all': No such file or directory\n", 2)
    );
    assert_eq!(
        parts(&ls("/", &w, &["ls", "-"])),
        ("", "ls: cannot access '-': No such file or directory\n", 2)
    );
    assert!(arg_is_cluster("--x", false));
    assert!(!arg_is_cluster("--x", true));
}

#[test]
fn native_ls_sorts_by_name() {
    let entry = |name: &str, meta| NativeEntry {
        key: name.as_bytes().to_vec(),
        name: name.to_string(),
        metadata: meta,
    };
    let read_dir = |p: &str| {
        if p == "/d" {
            Ok(vec![
                entry("b", Some((false, 7))),
                entry("a", None),
                entry("ba", Some((true, 1))),
                entry(".x", None),
                entry("B", None),
            ])
        } else {
            Err("not here".to_string())
        }
    };
    let run = |a: &[&str]| LsBuiltin::execute_native(&shell("/"), read_dir, &args(a));
    assert_eq!(parts(&run(&["ls", "d"])), ("B  a  b  ba  \n", "", 0));
    assert_eq!(
        parts(&run(&["ls", "-l", "d"])),
        (
            "-rw-r--r-- 1 user user        0 B\n-rw-r--r-- 1 user user        0 a\n-rw-r--r-- 1 user user        7 b\ndrw-r--r-- 1 user user        1 ba\n",
            "",
            0
        )
    );
    assert_eq!(parts(&run(&["ls", "x", "d"])), ("x:\n", "ls: cannot access 'x': not here\n", 2));
    assert_eq!(parts(&run(&["ls", "-z"])), ("", "ls: invalid option -- 'z'\n", 2));
}

#[test]
fn entries_with_equal_keys_keep_their_order() {
    let entry = |key: &[u8], name: &str| NativeEntry {
        key: key.to_vec(),
        name: name.to_string(),
        metadata: None,
    };
    let sorted = sort_entries(vec![
        entry(b"b", "1"),
        entry(b"a", "2"),
        entry(b"b", "3"),
        entry(b"a", "4"),
        entry(b"", "5"),
        entry(b"b", "6"),
    ]);
    let names: Vec<&str> = sorted.iter().map(|e| e.name.as_str()).collect();
    assert_eq!(names, ["5", "2", "4", "1", "3", "6"]);
}

fn make(w: Files, a: &[&str]) -> (Files, CommandOutput) {
    MkdirBuiltin::execute(&shell("/d"), &VfsHook::registered(mkdir), w, &args(a))
}

#[test]
fn mkdir_creates_what_is_named() {
    let (w, out) = make(sample(), &["mkdir", "-p", "x", "/y", "--parents"]);
    assert_eq!(parts(&out), ("", "", 0));
    let mut expected = sample();
    expected.insert("/d/x".to_string(), None);
    expected.insert("/y".to_string(), None);
    assert_eq!(w, expected);
}

#[test]
fn mkdir_refuses() {
    let (w, out) = make(sample(), &["mkdir", "x", "-q", "-r"]);
    assert_eq!(parts(&out), ("", "mkdir: unrecognized option '-q'\n", 1));
    assert_eq!(w, sample());
    let (_, out) = make(sample(), &["mkdir", "-p"]);
    assert_eq!(parts(&out), ("", "mkdir: missing operand\n", 1));
    let (_, out) = make(sample(), &["mkdir", "-"]);
    assert_eq!(parts(&out), ("", "mkdir: unrecognized option '-'\n", 1));
}

#[test]
fn native_mkdir_reports_failures() {
    let create = |mut w: Vec<(String, bool)>, p: &str, parents: bool| {
        if p == "/bad" {
            return (w, Err("denied".to_string()));
        }
        w.push((p.to_string(), parents));
        (w, Ok(()))
    };
    let (w, out) = MkdirBuiltin::execute_native(&shell("/"), create, Vec::new(), &args(&["mkdir", "a", "bad", "b"]));
    assert_eq!(parts(&out), ("", "mkdir: cannot create directory 'bad': denied\n", 1));
    assert_eq!(w, [("/a".to_string(), false), ("/b".to_string(), false)]);
    let (w, out) = MkdirBuiltin::execute_native(&shell("/"), create, Vec::new(), &args(&["mkdir", "-p", "a"]));
    assert_eq!(parts(&out), ("", "", 0));
    assert_eq!(w, [("/a".to_string(), true)]);
}

fn rm(w: Files, a: &[&str]) -> (Files, CommandOutput) {
    RmBuiltin::execute(&shell("/d"), &VfsHook::registered(remove), w, &args(a))
}

#[test]
fn rm_removes_what_is_named() {
    let (w, out) = rm(sample(), &["rm", "a", "-r", "/f"]);
    assert_eq!(parts(&out), ("", "", 0));
    let mut expected = sample();
    expected.remove("/d/a");
    expected.remove("/f");
    assert_eq!(w, expected);
}

#[test]
fn rm_reports_what_is_missing() {
    let (w, out) = rm(sample(), &["rm", "x", "a", "y"]);
    assert_eq!(
        parts(&out),
        (
            "",
            "rm: cannot remove 'x': No such file or directory\nrm: cannot remove 'y': No such file or directory\n",
            1
        )
    );
    assert!(!w.contains_key("/d/a"));
    let (_, out) = rm(sample(), &["rm", "-Rf", "x"]);
    assert_eq!(parts(&out), ("", "", 0));
}

#[test]
fn rm_refuses() {
    let (w, out) = rm(sample(), &["rm", "a", "-rx"]);
    assert_eq!(parts(&out), ("", "rm: invalid option -- 'x'\n", 1));
    assert_eq!(w, sample());
    assert_eq!(parts(&rm(sample(), &["rm", "--force"]).1), ("", "rm: invalid option -- '-'\n", 1));
    assert_eq!(parts(&rm(sample(), &["rm"]).1), ("", "rm: missing operand\n", 1));
    assert_eq!(parts(&rm(sample(), &["rm", "-f"]).1), ("", "", 0));
}

#[test]
fn native_rm_removes_directories_with_their_content() {
    let is_dir = |_: &Vec<String>, p: &str| p == "/dir";
    let all = |mut w: Vec<String>, p: &str| {
        w.push(format!("all {p}"));
        (w, Ok(()))
    };
    let one = |mut w: Vec<String>, p: &str| {
        if p == "/gone" {
            return (w, Err("gone".to_string()));
        }
        w.push(format!("one {p}"));
        (w, Ok(()))
    };
    let run = |a: &[&str]| RmBuiltin::execute_native(&shell("/"), is_dir, all, one, Vec::new(), &args(a));
    let (w, out) = run(&["rm", "dir", "gone", "file"]);
    assert_eq!(w, ["all /dir", "one /file"]);
    assert_eq!(parts(&out), ("", "rm: cannot remove 'gone': gone\n", 1));
    assert_eq!(parts(&run(&["rm", "-f", "gone"]).1), ("", "", 0));
}

fn mv(w: Files, a: &[&str]) -> (Files, CommandOutput) {
    MvBuiltin::execute(
        &shell("/d"),
        &VfsHook::registered(open),
        read_to_end,
        write_all,
        &VfsHook::registered(remove),
        w,
        &args(a),
    )
}

#[test]
fn mv_moves_a_file() {
    let (w, out) = mv(sample(), &["mv", "-f", "a", "/g"]);
    assert_eq!(parts(&out), ("", "", 0));
    let mut expected = sample();
    expected.remove("/d/a");
    expected.insert("/g".to_string(), Some(b"12345".to_vec()));
    assert_eq!(w, expected);
}

#[test]
fn failed_mv_keeps_the_source() {
    let (w, out) = mv(sample(), &["mv", "x", "y"]);
    assert_eq!(parts(&out), ("", "mv: cannot stat 'x': file not found: /d/x\n", 1));
    assert_eq!(w, sample());
    let (w, out) = mv(sample(), &["mv", "a", "locked"]);
    assert_eq!(parts(&out), ("", "mv: cannot create 'locked': locked\n", 1));
    assert_eq!(w, sample());
    let (w, out) = mv(sample(), &["mv", "a", "full"]);
    assert_eq!(parts(&out), ("", "mv: cannot write 'full': no space\n", 1));
    assert_eq!(w["/d/a"], Some(b"12345".to_vec()));
    let bad = files(&[("/d/bad", Some(b"x"))]);
    let (w, out) = mv(bad.clone(), &["mv", "bad", "y"]);
    assert_eq!(parts(&out), ("", "mv: cannot read 'bad': broken\n", 1));
    assert_eq!(w, bad);
}

#[test]
fn mv_wants_two_operands() {
    assert_eq!(parts(&mv(sample(), &["mv"]).1), ("", "mv: expected 2 arguments, got 0\n", 1));
    let many: Vec<&str> = std::iter::repeat("x").take(13).collect();
    assert_eq!(parts(&mv(sample(), &many).1), ("", "mv: expected 2 arguments, got 12\n", 1));
}

#[test]
fn native_mv_renames() {
    let rename = |mut w: Vec<String>, p: &str, q: &str| {
        if p == "/gone" {
            return (w, Err("gone".to_string()));
        }
        w.push(format!("{p} {q}"));
        (w, Ok(()))
    };
    let run = |a: &[&str]| MvBuiltin::execute_native(&shell("/"), rename, Vec::new(), &args(a));
    let (w, out) = run(&["mv", "a", "b"]);
    assert_eq!(w, ["/a /b"]);
    assert_eq!(parts(&out), ("", "", 0));
    let (w, out) = run(&["mv", "gone", "b"]);
    assert!(w.is_empty());
    assert_eq!(parts(&out), ("", "mv: cannot move 'gone' to 'b': gone\n", 1));
    assert_eq!(parts(&run(&["mv", "a"]).1), ("", "mv: expected 2 arguments, got 1\n", 1));
}

#[test]
fn touch_creates_missing_files_and_updates_others() {
    let run = |a: &[&str]| {
        TouchBuiltin::execute(
            &shell("/d"),
            &VfsHook::registered(is_there),
            &VfsHook::registered(open),
            |mut w: Files, f: String| {
                w.insert(format!("closed {f}"), None);
                w
            },
            |mut w: Files, p: &str| {
                w.insert(format!("updated {p}"), None);
                w
            },
            sample(),
            &args(a),
        )
    };
    let (w, out) = run(&["touch", "-c", "a", "new", "locked"]);
    assert_eq!(parts(&out), ("", "touch: cannot touch 'locked': locked\n", 0));
    let mut expected = sample();
    expected.insert("/d/new".to_string(), Some(Vec::new()));
    expected.insert("closed /d/new".to_string(), None);
    expected.insert("updated /d/a".to_string(), None);
    assert_eq!(w, expected);
    let (w, out) = run(&["touch", "-c", "-"]);
    assert_eq!(parts(&out), ("", "touch: missing file operand\n", 1));
    assert_eq!(w, sample());
}

#[test]
fn tee_copies_its_input() {
    let run = |a: &[&str]| {
        TeeBuiltin::execute(
            &shell("/d"),
            &VfsHook::registered(open),
            write_all,
            sample(),
            &args(a),
            b"in\xff".to_vec(),
        )
    };
    let (w, out) = run(&["tee", "a", "locked", "full", "-x", "n"]);
    assert_eq!(out.stdout, b"in\xff");
    assert_eq!(out.stderr, "tee: 'locked': locked\n");
    assert_eq!(out.exit_code, 0);
    assert_eq!(w["/d/a"], Some(b"in\xff".to_vec()));
    assert_eq!(w["/d/n"], Some(b"in\xff".to_vec()));
    assert_eq!(w["/d/full"], Some(Vec::new()));
    let (w, _) = run(&["tee", "--append", "a"]);
    assert_eq!(w["/d/a"], Some(b"12345in\xff".to_vec()));
    let (w, _) = run(&["tee", "a", "-a"]);
    assert_eq!(w["/d/a"], Some(b"12345in\xff".to_vec()));
    let (w, out) = run(&["tee"]);
    assert_eq!(w, sample());
    assert_eq!(out.stdout, b"in\xff");
}

#[test]
fn basename_gives_the_last_name() {
    let run = |a: &[&str]| BasenameBuiltin::execute(&args(a)).stdout;
    assert_eq!(run(&["basename", "/a/b.txt"]), "b.txt\n");
    assert_eq!(run(&["basename", "/a/b.txt", ".txt"]), "b\n");
    assert_eq!(run(&["basename", "/a/.txt", ".txt"]), ".txt\n");
    assert_eq!(run(&["basename", "/a/b.txt", "x.txt"]), "b.txt\n");
    assert_eq!(run(&["basename", "/a/b/"]), "b\n");
    assert_eq!(run(&["basename", "/"]), "/\n");
    assert_eq!(run(&["basename", "//"]), "\n");
    assert_eq!(run(&["basename", ".."]), "\n");
    let out = BasenameBuiltin::execute(&args(&["basename"]));
    assert_eq!(parts(&out), ("", "basename: missing operand\n", 1));
}

#[test]
fn dirname_gives_the_directory() {
    let out = DirnameBuiltin::execute(&args(&["dirname", "/a/b", "/a", "a", "/", "", "a//b/", "./x"]));
    assert_eq!(parts(&out), ("/a\n/\n.\n.\n.\na\n.\n", "", 0));
    let out = DirnameBuiltin::execute(&args(&["dirname"]));
    assert_eq!(parts(&out), ("", "dirname: missing operand\n", 1));
}

#[test]
fn find_lists_through_the_hook() {
    let w = sample();
    let s = shell("/");
    let hook = VfsHook::registered(list);
    let r = FindBuiltin::list_directory(&s, &hook, &w, "d").unwrap();
    let shown: Vec<(&str, bool, u64, u64)> =
        r.iter().map(|e| (e.name.as_str(), e.is_dir, e.size, e.modified_ms)).collect();
    assert_eq!(shown, [(".hidden", false, 1, 5), ("a", false, 5, 5), ("sub", true, 0, 5)]);
    let e = FindBuiltin::list_directory(&s, &hook, &w, "nope").err().unwrap();
    assert_eq!(e, "cannot access 'nope': No such file or directory");
}

#[test]
fn exit_codes_are_cut_to_eight_bits() {
    for code in [0, 1, 255, 256, 257, -1, -256, i32::MAX, i32::MIN] {
        assert_eq!(exit_status(code), (code & 0xFF) as u8);
    }
}

#[test]
fn engines_get_all_arguments() {
    let count = |mut w: Vec<String>, a: &Vec<String>| {
        w.extend(a.clone());
        (w, 256 + a.len() as i32)
    };
    let a = args(&["grep", "x", "-v"]);
    assert_eq!(run_utility(count, Vec::new(), &a), (a.clone(), 3));
    assert_eq!(GrepBuiltin::execute(count, Vec::new(), &a), (a.clone(), 3));
    assert_eq!(FindBuiltin::execute_native(count, Vec::new(), &a), (a.clone(), 3));
}

#[test]
fn find_engine_lists_through_the_shell() {
    let engine =
        |s: &Shell<u8>, h: &VfsHook<ListFn>, w: &Files, out: String, a: &Vec<String>| {
            match FindBuiltin::list_directory(s, h, w, &a[1]) {
                Ok(entries) => {
                    let names: Vec<String> = entries.iter().map(|e| e.name.clone()).collect();
                    (out + &names.join("\n"), entries.len() as i32)
                }
                Err(_) => (out, -1),
            }
        };
    let hook: VfsHook<ListFn> = VfsHook::registered(list);
    let s = shell("/");
    let run = |a: &[&str]| {
        FindBuiltin::execute(&s, &hook, engine, &sample(), "> ".to_string(), &args(a))
    };
    assert_eq!(run(&["find", "d"]), ("> .hidden\na\nsub".to_string(), 3));
    assert_eq!(run(&["find", "x"]), ("> ".to_string(), 255));
}

#[test]
fn every_command_is_registered_under_its_name() {
    let table = uutils_builtins();
    let names = [
        ("cat", Builtin::Cat), ("echo", Builtin::Echo), ("sort", Builtin::Sort), ("uniq", Builtin::Uniq),
        ("wc", Builtin::Wc), ("head", Builtin::Head), ("tail", Builtin::Tail), ("cut", Builtin::Cut),
        ("tr", Builtin::Tr), ("seq", Builtin::SeqNumbers), ("grep", Builtin::Grep), ("printf", Builtin::Printf),
        ("ls", Builtin::Ls), ("mkdir", Builtin::Mkdir), ("rm", Builtin::Rm), ("mv", Builtin::Mv),
        ("touch", Builtin::Touch), ("tee", Builtin::Tee), ("basename", Builtin::Basename),
        ("dirname", Builtin::Dirname), ("find", Builtin::Find),
    ];
    for (name, b) in names {
        assert_eq!(table.get(name), Some(&b));
    }
    assert_eq!(all_builtins(), names.map(|(_, b)| b));
    assert!(names.iter().all(|(name, b)| name_of(*b) == *name));
    assert_eq!(table.entries.len(), names.len());
    assert_eq!(table.get("cd"), None);
}

#[test]
fn help_names_the_command() {
    assert_eq!(get_content(Builtin::Cat, "cat"), "cat: uutils coreutils command\n");
    assert_eq!(get_content(Builtin::Grep, "grep"), GrepBuiltin::get_content("grep"));
    assert_eq!(GrepBuiltin::get_content("g"), "g: grep (POSIX-compatible, ripgrep engine)\n");
    assert_eq!(get_content(Builtin::Ls, "ls"), "ls: list directory contents\n");
    assert_eq!(get_content(Builtin::Tee, "tee"), "tee: read from stdin, write to stdout and files\n");
    assert_eq!(get_content(Builtin::Find, "find"), "find: search for files in a directory hierarchy\n");
}
