use marv::registry::{Lookup, ServerRecord};
use marv::server::{
    inject_reload_script, preview_url, run_server, ServerError, BODY_END, RELOAD_SCRIPT,
    SERVER_BROWSER_DELAY_MS, START_BROWSER_DELAY_MS,
};

#[test]
fn script_goes_before_the_body_end() {
    let page = inject_reload_script("<html><body><p>hi</p></body></html>");
    let expected = format!("<html><body><p>hi</p>{}</body>\n</html>", RELOAD_SCRIPT);
    assert_eq!(page, expected);
}

#[test]
fn script_is_the_reload_script() {
    assert!(RELOAD_SCRIPT.starts_with("\n<script>"));
    assert!(RELOAD_SCRIPT.ends_with("</script>\n"));
    assert!(RELOAD_SCRIPT.contains("new WebSocket(`ws://${window.location.host}/ws`)"));
    assert!(RELOAD_SCRIPT.contains("event.data === 'refresh'"));
    assert!(!RELOAD_SCRIPT.contains(BODY_END));
    assert_eq!(BODY_END, "</body>");
}

#[test]
fn script_is_appended_without_marker() {
    assert_eq!(inject_reload_script("<p>bare</p>"), format!("<p>bare</p>{}", RELOAD_SCRIPT));
    assert_eq!(inject_reload_script(""), RELOAD_SCRIPT);
    assert_eq!(inject_reload_script("</body"), format!("</body{}", RELOAD_SCRIPT));
}

#[test]
fn every_marker_gets_the_script() {
    let page = inject_reload_script("a</body>b</body>");
    let block = format!("{}</body>\n", RELOAD_SCRIPT);
    assert_eq!(page, format!("a{}b{}", block, block));
}

#[test]
fn injection_is_a_replacement_of_the_marker() {
    let block = format!("{}</body>\n", RELOAD_SCRIPT);
    for document in ["<body></body>", "</body></body></body>", "x</body", "<<//body>>", "</body></bod", "ü</body>ö"] {
        let expected = if document.contains("</body>") {
            document.replace("</body>", &block)
        } else {
            format!("{}{}", document, RELOAD_SCRIPT)
        };
        assert_eq!(inject_reload_script(document), expected);
    }
}

#[test]
fn url_names_localhost_and_port() {
    assert_eq!(preview_url(4000), "http://localhost:4000");
    assert_eq!(preview_url(4999), "http://localhost:4999");
    assert_eq!(preview_url(0), "http://localhost:0");
    assert_eq!(preview_url(65535), "http://localhost:65535");
}

#[test]
fn browser_delays() {
    assert_eq!(START_BROWSER_DELAY_MS, 1000);
    assert_eq!(SERVER_BROWSER_DELAY_MS, 500);
}

#[test]
fn server_mode_starts_from_record_and_content() {
    let record = Lookup::Found(ServerRecord { port: 4003, pid: 9 });
    let mode = run_server(record, Some("# A".to_string()), true).unwrap();
    assert_eq!(mode.port, 4003);
    assert_eq!(mode.channel.current(), "# A");
}

#[test]
fn server_mode_fails_on_the_first_thing_missing() {
    let record = Lookup::Found(ServerRecord { port: 4003, pid: 9 });
    let error = |r: Lookup, c: Option<&str>, w: bool| run_server(r, c.map(|s| s.to_string()), w).err();
    assert_eq!(error(Lookup::NotFound, Some("x"), true), Some(ServerError::RecordNotFound));
    assert_eq!(error(Lookup::NotFound, None, false), Some(ServerError::RecordNotFound));
    assert_eq!(error(Lookup::Corrupt, Some("x"), true), Some(ServerError::RecordCorrupt));
    assert_eq!(error(record, None, true), Some(ServerError::FileUnreadable));
    assert_eq!(error(record, None, false), Some(ServerError::FileUnreadable));
    assert_eq!(error(record, Some("x"), false), Some(ServerError::WatchSetupFailure));
    assert_eq!(error(record, Some("x"), true), None);
}
