use brush_wasm::error::IoErrorKind;
use brush_wasm::json::{scalar_member, scalar_of, JsonScalar};
use brush_wasm::wasm_vfs::{
    entries_of_values, entry_from_fields, list_dir, open_file, stat, stat_from_fields,
    JsBackedFile, JsCall, SPILL_THRESHOLD,
};

fn apply(js: &mut Vec<u8>, call: Option<JsCall>) {
    match call {
        Some(JsCall::WriteFile { content, .. }) => *js = content,
        Some(JsCall::AppendChunk { chunk, .. }) => js.extend(chunk),
        None => {}
    }
}

fn no_chunk(_: (), _: &str, _: u32, _: u32) -> ((), Option<Vec<u8>>) {
    panic!("no chunk is needed")
}

#[test]
fn small_file_is_written_when_flushed() {
    let mut f = JsBackedFile::open_write("/a/b");
    let mut js = b"old".to_vec();
    let (n, call) = f.write(b"new").unwrap();
    assert_eq!(n, 3);
    assert!(call.is_none());
    let mut buf = [0u8; 2];
    assert_eq!(f.read((), &mut buf, no_chunk).1, 2);
    assert_eq!(&buf, b"ne");
    match f.flush() {
        Some(JsCall::WriteFile { path, content }) => {
            assert_eq!(path, "/a/b");
            js = content;
        }
        _ => panic!("the file has to be written"),
    }
    assert_eq!(js, b"new");
    assert!(f.flush().is_none());
    let (_, call) = f.write(b"er").unwrap();
    apply(&mut js, call);
    apply(&mut js, f.close());
    assert_eq!(js, b"newer");
}

#[test]
fn opening_for_writing_makes_an_empty_file() {
    let f = JsBackedFile::open_write("/a");
    let mut js = b"old".to_vec();
    apply(&mut js, f.close());
    assert_eq!(js, b"");
}

#[test]
fn appending_goes_on_at_the_end() {
    let mut f = JsBackedFile::open_append("/log", Some(b"one ".to_vec()));
    let mut js = b"one ".to_vec();
    f.write(b"two").unwrap();
    let mut buf = [0u8; 8];
    assert_eq!(f.read((), &mut buf, no_chunk).1, 3);
    assert_eq!(&buf[..3], b"two");
    apply(&mut js, f.close());
    assert_eq!(js, b"one two");
    let f = JsBackedFile::open_append("/new", None);
    assert!(f.buffer.is_empty() && f.position == 0);
}

#[test]
fn what_was_written_is_read_back() {
    for piece in [1usize, 1000, SPILL_THRESHOLD / 2 + 1] {
        let mut f = JsBackedFile::open_append("/f", Some(b"start".to_vec()));
        let mut js = b"start".to_vec();
        let mut expected = js.clone();
        for k in 0..5u8 {
            let bytes = vec![k; piece];
            let (n, call) = f.write(&bytes).unwrap();
            assert_eq!(n, piece);
            apply(&mut js, call);
            expected.extend(bytes);
            if k == 2 {
                let call = f.flush();
                apply(&mut js, call);
                assert_eq!(js, expected);
            }
        }
        apply(&mut js, f.close());
        assert_eq!(js, expected);

        let held = js.clone();
        let chunk = |asked: u32, _: &str, offset: u32, len: u32| {
            let from = (offset as usize).min(held.len());
            let to = (offset as usize + len as usize).min(held.len());
            (asked + 1, Some(held[from..to].to_vec()))
        };
        let mut f = JsBackedFile::open_read("/f", Some(js)).unwrap();
        let large = expected.len() >= SPILL_THRESHOLD;
        assert_eq!((f.spilled, f.buffer.is_empty()), (large, large));
        let mut read = Vec::new();
        let mut reads = 0;
        let mut asked = 0;
        let mut buf = vec![0u8; 70_001];
        loop {
            let (now, n) = f.read(asked, &mut buf, &chunk);
            asked = now;
            reads += 1;
            if n == 0 {
                break;
            }
            read.extend_from_slice(&buf[..n]);
        }
        assert_eq!(read, expected);
        assert_eq!(asked, if large { reads } else { 0 });
    }
}

#[test]
fn read_only_file_cannot_be_written() {
    let mut f = JsBackedFile::open_read("/r", Some(b"abc".to_vec())).unwrap();
    let e = f.write(b"x").err().unwrap();
    assert_eq!(e.kind, IoErrorKind::PermissionDenied);
    assert_eq!(e.message, "read-only file");
    assert!(f.close().is_none());
    let e = JsBackedFile::open_read("/missing", None).err().unwrap();
    assert_eq!(e.kind, IoErrorKind::NotFound);
    assert_eq!(e.message, "file not found: /missing");
}

#[test]
fn large_file_spills_and_is_read_in_chunks() {
    let mut f = JsBackedFile::open_write("/big");
    let mut js: Vec<u8> = Vec::new();
    let first = vec![1u8; SPILL_THRESHOLD - 1];
    let (_, call) = f.write(&first).unwrap();
    assert!(call.is_none() && !f.spilled);
    let (_, call) = f.write(&[2, 3]).unwrap();
    assert!(matches!(call, Some(JsCall::WriteFile { .. })));
    apply(&mut js, call);
    assert!(f.spilled && f.buffer.is_empty());
    assert_eq!(f.js_size, SPILL_THRESHOLD + 1);
    let (_, call) = f.write(&[4, 5]).unwrap();
    assert!(matches!(call, Some(JsCall::AppendChunk { .. })));
    apply(&mut js, call);
    assert_eq!(js.len(), SPILL_THRESHOLD + 3);
    assert_eq!(f.js_size, js.len());

    f.position = SPILL_THRESHOLD;
    let held = js.clone();
    let chunk = |(), path: &str, offset: u32, len: u32| {
        assert_eq!(path, "/big");
        let from = (offset as usize).min(held.len());
        let to = (offset as usize + len as usize).min(held.len());
        ((), Some(held[from..to].to_vec()))
    };
    let mut buf = [9u8; 2];
    assert_eq!(f.read((), &mut buf, &chunk).1, 2);
    assert_eq!(buf, [3, 4]);
    assert_eq!(f.read((), &mut buf, &chunk).1, 1);
    assert_eq!(buf, [5, 4]);
    assert_eq!(f.read((), &mut buf, &chunk).1, 0);
    assert_eq!(f.read((), &mut buf, |(), _: &str, _: u32, _: u32| ((), None)).1, 0);
    assert_eq!(f.read((), &mut buf, |(), _: &str, _: u32, _: u32| ((), Some(vec![7, 8, 9]))).1, 2);
    assert_eq!(buf, [7, 8]);
    assert!(f.flush().is_none());
    assert!(f.close().is_none());
}

#[test]
fn flags_decide_how_a_file_is_opened() {
    let read = |_: &Vec<String>, p: &str| if p == "/d/f" { Some(b"xy".to_vec()) } else { None };
    let mkdir = |mut w: Vec<String>, p: &str| {
        w.push(p.to_string());
        w
    };
    let open = |path: &str, r: bool, w: bool, c: bool, a: bool| {
        open_file(Vec::new(), read, mkdir, path, r, w, c, a)
    };
    let (made, f) = open("/d/f", true, true, true, true);
    let f = f.unwrap();
    assert_eq!(made, ["/d"]);
    assert!(f.append && f.buffer == b"xy" && f.position == 2);
    let (made, f) = open("f", false, false, true, false);
    let f = f.unwrap();
    assert_eq!(made, [""]);
    assert!(f.writable && !f.append && f.buffer.is_empty());
    assert!(matches!(f.close(), Some(JsCall::WriteFile { content, .. }) if content.is_empty()));
    let (made, f) = open("/d/f", false, true, true, false);
    let f = f.unwrap();
    assert_eq!(made, ["/d"]);
    assert!(f.writable && f.buffer.is_empty() && f.dirty);
    let (made, f) = open("/d/f", true, false, false, false);
    let f = f.unwrap();
    assert!(made.is_empty());
    assert!(!f.writable && f.buffer == b"xy" && f.position == 0);
    let (_, f) = open("/d/g", true, false, false, false);
    assert_eq!(f.err().unwrap().message, "file not found: /d/g");
    let (made, f) = open("/d/f", false, false, false, false);
    let e = f.err().unwrap();
    assert!(made.is_empty());
    assert_eq!(e.kind, IoErrorKind::InvalidInput);
    assert_eq!(e.message, "no file mode specified");
    let (made, _) = open("/", false, true, false, false);
    assert!(made.is_empty());
}

#[test]
fn creating_keeps_a_file_that_exists() {
    let read = |_: &(), _: &str| Some(vec![1, 2, 3]);
    let (_, f) = open_file((), read, |(), _: &str| panic!("exists"), "/f", true, false, true, false);
    let mut f = f.unwrap();
    let mut buf = [0u8; 4];
    assert_eq!(f.read((), &mut buf, no_chunk).1, 3);
    assert_eq!(buf, [1, 2, 3, 0]);
    assert!(f.close().is_none());
}

#[test]
fn large_files_are_opened_without_keeping_them() {
    let bytes = vec![5u8; SPILL_THRESHOLD];
    let mut f = JsBackedFile::open_read("/r", Some(bytes.clone())).unwrap();
    assert!(f.spilled && f.buffer.is_empty() && f.position == 0 && !f.writable);
    assert_eq!(f.js_size, SPILL_THRESHOLD);
    assert_eq!(f.write(b"x").err().unwrap().kind, IoErrorKind::PermissionDenied);
    let mut buf = [0u8; 3];
    let chunk = |(), p: &str, offset: u32, len: u32| {
        assert_eq!((p, offset, len), ("/r", 0, 3));
        ((), Some(vec![8, 9]))
    };
    assert_eq!(f.read((), &mut buf, chunk).1, 2);
    assert_eq!((buf, f.position), ([8, 9, 0], 2));
    assert!(f.close().is_none());

    let mut f = JsBackedFile::open_append("/a", Some(bytes));
    assert_eq!(f.position, SPILL_THRESHOLD);
    let (_, call) = f.write(b"y").unwrap();
    assert!(matches!(call, Some(JsCall::AppendChunk { chunk, .. }) if chunk == b"y"));
    let f = JsBackedFile::open_read("/s", Some(vec![5u8; SPILL_THRESHOLD - 1])).unwrap();
    assert!(!f.spilled && f.buffer.len() == SPILL_THRESHOLD - 1);
}

#[test]
fn writes_reach_the_page_from_the_threshold_on() {
    let mut f = JsBackedFile::open_write("/p");
    let (_, call) = f.write(&vec![1u8; SPILL_THRESHOLD - 2]).unwrap();
    assert!(call.is_none());
    let (_, call) = f.write(&[2]).unwrap();
    assert!(call.is_none());
    let (_, call) = f.write(&[3]).unwrap();
    match call {
        Some(JsCall::WriteFile { path, content }) => {
            assert_eq!((path.as_str(), content.len()), ("/p", SPILL_THRESHOLD));
            assert_eq!(&content[SPILL_THRESHOLD - 3..], [1, 2, 3]);
        }
        _ => panic!("everything has to be handed over"),
    }
    let (_, call) = f.write(&[4, 5]).unwrap();
    assert!(matches!(call, Some(JsCall::AppendChunk { path, chunk }) if path == "/p" && chunk == [4, 5]));
}

#[test]
fn listing_skips_what_is_no_entry() {
    let text = r#"[
        {"name": "a", "size": 3, "is_dir": false, "modified": 7},
        {"name": "no size", "is_dir": false, "modified": 7},
        {"name": 5, "size": 3, "is_dir": false, "modified": 7},
        "text",
        {"name": "d", "size": -1, "is_dir": "yes", "modified": 1.5}
    ]"#;
    let entries = list_dir(Some(text.to_string())).unwrap();
    assert_eq!(
        entries,
        [("a".to_string(), 3, false, 7), ("d".to_string(), 0, false, 0)]
    );
    assert_eq!(list_dir(Some("{}".to_string())), None);
    assert_eq!(list_dir(Some("[".to_string())), None);
    assert_eq!(list_dir(Some("[]".to_string())), Some(Vec::new()));
    assert_eq!(list_dir(None), None);
}

#[test]
fn stat_reads_a_record() {
    let text = r#"{"size": 18446744073709551615, "is_dir": true, "modified": 2}"#;
    assert_eq!(stat(Some(text.to_string())), Some((u64::MAX, true, 2)));
    assert_eq!(stat(Some(r#"{"size": 1, "is_dir": true}"#.to_string())), None);
    assert_eq!(stat(Some(r#"{"size": null, "is_dir": 1, "modified": "x"}"#.to_string())), Some((0, false, 0)));
    assert_eq!(stat(Some("[]".to_string())), None);
    assert_eq!(stat(Some("no json".to_string())), None);
    assert_eq!(stat(None), None);
}

#[test]
fn fields_make_entries() {
    let n = || Some(JsonScalar::Unsigned(4));
    assert_eq!(stat_from_fields(n(), Some(JsonScalar::Flag(true)), n()), Some((4, true, 4)));
    assert_eq!(stat_from_fields(Some(JsonScalar::Other), n(), n()), Some((0, false, 4)));
    assert_eq!(stat_from_fields(None, n(), n()), None);
    let name = Some(JsonScalar::Text("x".to_string()));
    assert_eq!(entry_from_fields(name, Some((1, true, 2))), Some(("x".to_string(), 1, true, 2)));
    assert_eq!(entry_from_fields(n(), Some((1, true, 2))), None);
    assert_eq!(entry_from_fields(None, Some((1, true, 2))), None);
}

#[test]
fn json_values_are_read_as_scalars() {
    let value: serde_json::Value =
        serde_json::from_str(r#"{"t": "x", "n": 5, "b": true, "z": null, "neg": -5}"#).unwrap();
    assert!(matches!(scalar_member(&value, "t"), Some(JsonScalar::Text(t)) if t == "x"));
    assert!(matches!(scalar_member(&value, "n"), Some(JsonScalar::Unsigned(5))));
    assert!(matches!(scalar_member(&value, "b"), Some(JsonScalar::Flag(true))));
    assert!(matches!(scalar_member(&value, "z"), Some(JsonScalar::Other)));
    assert!(matches!(scalar_member(&value, "neg"), Some(JsonScalar::Other)));
    assert!(scalar_member(&value, "none").is_none());
    assert!(matches!(scalar_of(&value), JsonScalar::Other));
    assert!(entries_of_values(&vec![value]).is_empty());
}
