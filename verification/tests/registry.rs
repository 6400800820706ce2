use marv::registry::{
    companion_path, get_server_info_dir, get_server_info_path, is_record_file, lookup,
    read_server_info, record_file_name, removal_done, save_file_path_in_server_info,
    server_info_dir_in,
    write_server_info,
    ConfigError, Lookup, RecordError, ServerRecord, Stored,
};

#[test]
fn record_round_trips() {
    let content = write_server_info(4000, 12345);
    assert_eq!(content, "4000:12345");
    assert_eq!(read_server_info(&content), Ok(ServerRecord { port: 4000, pid: 12345 }));
}

#[test]
fn record_round_trips_at_the_limits() {
    for (port, pid) in [(0u16, 0u32), (1, 1), (4999, 1), (65535, 4294967295), (10, 100)] {
        let content = write_server_info(port, pid);
        assert_eq!(content, format!("{}:{}", port, pid));
        assert_eq!(read_server_info(&content), Ok(ServerRecord { port, pid }));
        assert_eq!(lookup(&Stored::Content(content)), Lookup::Found(ServerRecord { port, pid }));
    }
}

#[test]
fn wrong_field_count_is_corrupt() {
    assert_eq!(read_server_info(""), Err(RecordError::FieldCount));
    assert_eq!(read_server_info("4000"), Err(RecordError::FieldCount));
    assert_eq!(read_server_info("4000:1:2"), Err(RecordError::FieldCount));
    assert_eq!(read_server_info("4000::2"), Err(RecordError::FieldCount));
    assert_eq!(read_server_info("x:y:z"), Err(RecordError::FieldCount));
}

#[test]
fn bad_port_is_corrupt() {
    assert_eq!(read_server_info("http:12"), Err(RecordError::Port));
    assert_eq!(read_server_info(":12"), Err(RecordError::Port));
    assert_eq!(read_server_info("65536:12"), Err(RecordError::Port));
    assert_eq!(read_server_info("-1:12"), Err(RecordError::Port));
    assert_eq!(read_server_info("40 00:12"), Err(RecordError::Port));
    assert_eq!(read_server_info("+:12"), Err(RecordError::Port));
    assert_eq!(read_server_info("x:y"), Err(RecordError::Port));
}

#[test]
fn bad_pid_is_corrupt() {
    assert_eq!(read_server_info("4000:x"), Err(RecordError::Pid));
    assert_eq!(read_server_info("4000:"), Err(RecordError::Pid));
    assert_eq!(read_server_info("4000:4294967296"), Err(RecordError::Pid));
    assert_eq!(read_server_info("4000: 12"), Err(RecordError::Pid));
    assert_eq!(read_server_info("4000:99999999999999999999999"), Err(RecordError::Pid));
}

#[test]
fn records_are_read_as_the_standard_library_reads_numbers() {
    let cases = [
        "4000:12", " 4000:12", "4000:12\n", "\t4000:12\r\n", "+4000:12", "4000:+12", "04000:0012",
        "4000 :12", "4000: 12", "4000:12:", "0x10:1", "4000:1_000", "65535:4294967295",
        "65536:1", "1:4294967296", "\u{a0}4000:12\u{3000}", "\u{200b}4000:12", "",
        ":", "::", "a:b", "١٢:12",
    ];
    for content in cases {
        let parts: Vec<&str> = content.trim().split(':').collect();
        let expected = if parts.len() != 2 {
            None
        } else {
            match (parts[0].parse::<u16>(), parts[1].parse::<u32>()) {
                (Ok(port), Ok(pid)) => Some(ServerRecord { port, pid }),
                _ => None,
            }
        };
        assert_eq!(read_server_info(content).ok(), expected, "content {:?}", content);
    }
}

#[test]
fn lookup_tells_missing_from_corrupt() {
    assert_eq!(lookup(&Stored::Absent), Lookup::NotFound);
    assert_eq!(lookup(&Stored::Unreadable), Lookup::Corrupt);
    assert_eq!(lookup(&Stored::Content("garbage".to_string())), Lookup::Corrupt);
    assert_eq!(lookup(&Stored::Content(String::new())), Lookup::Corrupt);
    assert_eq!(
        lookup(&Stored::Content("4001:77\n".to_string())),
        Lookup::Found(ServerRecord { port: 4001, pid: 77 })
    );
}

#[test]
fn record_path_is_fingerprint_in_directory() {
    assert_eq!(
        get_server_info_path("/tmp/doc.md", "/home/user/.marv"),
        "/home/user/.marv/28600e2638efdd5d769ce1cbfa48c835.server"
    );
    assert_eq!(
        get_server_info_path("/tmp/doc.md", "/home/user/.marv/"),
        "/home/user/.marv/28600e2638efdd5d769ce1cbfa48c835.server"
    );
    assert_eq!(
        get_server_info_path("/tmp/doc.md", ""),
        "28600e2638efdd5d769ce1cbfa48c835.server"
    );
    assert_eq!(
        get_server_info_path("/home/üser/δοκ.md", "/r"),
        "/r/3e7c0063ad8b5eb7bca245a37852c58f.server"
    );
}

#[test]
fn record_path_agrees_with_the_md5_crate() {
    for path in ["/a/b.md", "", "relative.md", "/with space/x.mmd"] {
        let expected = format!("/d/{:x}.server", md5::compute(path.as_bytes()));
        assert_eq!(get_server_info_path(path, "/d"), expected);
    }
}

#[test]
fn record_path_is_the_joined_path() {
    let name = "28600e2638efdd5d769ce1cbfa48c835.server";
    for dir in ["/home/user/.marv", "/home/user/.marv/", "", "relative", "/", "a/b/"] {
        let expected = std::path::Path::new(dir).join(name);
        assert_eq!(get_server_info_path("/tmp/doc.md", dir), expected.to_string_lossy());
    }
}

#[test]
fn companion_of_a_record_has_the_other_extension() {
    let records = [
        "/r/abc.server", "abc.server", "/r.d/a.b.server", "/r/28600e2638efdd5d769ce1cbfa48c835.server",
        "./k.server", "/r/...server", "/r/x..server", "/r/ü.server", "r//k.server", "/.k.server",
    ];
    for record in records {
        let expected = std::path::Path::new(record).with_extension("filepath");
        assert_eq!(companion_path(record), Some(expected.to_string_lossy().into_owned()));
    }
}

#[test]
fn only_a_record_file_has_a_companion() {
    let others = [
        "/r/k.txt", "/r/.server", ".server", "/r/k", "", "/", "/r/abc.server/", "/r/abc.server.bak",
        "server", "/r/abcserver", "/r/..server", "..server", "/r/abc.SERVER", "/r/abc.filepath",
    ];
    for path in others {
        assert_eq!(companion_path(path), None, "path {:?}", path);
        assert_eq!(save_file_path_in_server_info(path, "/tmp/doc.md"), None);
    }
}

#[test]
fn one_record_file_per_path() {
    let a = get_server_info_path("/tmp/a.md", "/r");
    let again = get_server_info_path("/tmp/a.md", "/r");
    let b = get_server_info_path("/tmp/b.md", "/r");
    assert_eq!(a, again);
    assert_ne!(a, b);
}

#[test]
fn companion_replaces_the_suffix() {
    assert_eq!(companion_path("/r/abc.server").as_deref(), Some("/r/abc.filepath"));
    assert_eq!(companion_path("abc.server").as_deref(), Some("abc.filepath"));
    assert_eq!(companion_path("/r/a.b.server").as_deref(), Some("/r/a.b.filepath"));
    for dir in ["/r", "/r/", "", ".", "rel"] {
        let record = get_server_info_path("/tmp/doc.md", dir);
        let expected = std::path::Path::new(dir).join("28600e2638efdd5d769ce1cbfa48c835.filepath");
        assert_eq!(companion_path(&record), Some(expected.to_string_lossy().into_owned()));
    }
}

#[test]
fn path_reference_names_the_watched_path() {
    let reference = save_file_path_in_server_info("/r/abc.server", "/tmp/doc.md").unwrap();
    assert_eq!(reference.path, "/r/abc.filepath");
    assert_eq!(reference.content, "/tmp/doc.md");
}

#[test]
fn record_file_of_a_path_is_a_record_file() {
    for path in ["/tmp/doc.md", "", "/home/user/notes.markdown"] {
        let name: String = record_file_name(path).into_iter().collect();
        assert_eq!(name, format!("{:x}.server", md5::compute(path.as_bytes())));
        assert!(is_record_file(&name));
        assert_eq!(get_server_info_path(path, "/r"), format!("/r/{}", name));
    }
}

#[test]
fn removal_tolerates_an_absent_companion() {
    assert!(removal_done(true, None));
    assert!(removal_done(true, Some(true)));
    assert!(!removal_done(true, Some(false)));
    assert!(!removal_done(false, None));
    assert!(!removal_done(false, Some(true)));
    assert!(!removal_done(false, Some(false)));
}

#[test]
fn record_files_end_in_server() {
    assert!(is_record_file("abc.server"));
    assert!(is_record_file("28600e2638efdd5d769ce1cbfa48c835.server"));
    assert!(is_record_file("a.b.server"));
    assert!(!is_record_file(".server"));
    assert!(!is_record_file("abc.filepath"));
    assert!(!is_record_file("abc.server.bak"));
    assert!(!is_record_file("server"));
    assert!(!is_record_file("abcserver"));
    assert!(!is_record_file(""));
}

#[test]
fn record_files_are_those_with_the_server_extension() {
    for name in ["abc.server", ".server", "a.b.server", "x.filepath", "server", "..server", "a.SERVER"] {
        let expected = std::path::Path::new(name).extension().map(|e| e == "server").unwrap_or(false);
        assert_eq!(is_record_file(name), expected, "name {:?}", name);
    }
}

#[test]
fn registry_directory_is_in_home() {
    assert_eq!(server_info_dir_in(Some("/home/user")), Ok("/home/user/.marv".to_string()));
    assert_eq!(server_info_dir_in(Some("/home/user/")), Ok("/home/user/.marv".to_string()));
    assert_eq!(server_info_dir_in(Some("/")), Ok("/.marv".to_string()));
    assert_eq!(server_info_dir_in(None), Err(ConfigError::HomeUnknown));
}

#[test]
fn registry_directory_of_this_user() {
    match get_server_info_dir() {
        Ok(dir) => assert!(dir.ends_with(".marv")),
        Err(e) => assert_eq!(e, ConfigError::HomeUnknown),
    }
}
