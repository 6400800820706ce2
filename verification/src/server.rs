//! The preview server: the page it serves and the state it starts from.
//!
//! The page is the rendered document with a reload script put in: the
//! script opens the persistent connection and reloads the page when the
//! server says `refresh`. Rendering, listening and serving is the caller's
//! work.

use vstd::prelude::*;
use crate::channel::ContentChannel;
use crate::decimal::{decimal, push_decimal};
use crate::registry::Lookup;
use crate::text::{chars_of, contains, includes, lemma_replace_first, lemma_replace_none, occurs_at, push_range, replace, replace_all, string_of};

verus! {

/// The marker that closes the body of a document.
pub const BODY_END: &'static str = "</body>";

/// The script that connects the page to the server and reloads it on
/// `refresh`.
pub const RELOAD_SCRIPT: &'static str = r#"
<script>
    // Connect to WebSocket server
    const socket = new WebSocket(`ws://${window.location.host}/ws`);
    
    // Handle messages from the server
    socket.onmessage = function(event) {
        if (event.data === 'refresh') {
            console.log('Refreshing page due to file change');
            window.location.reload();
        }
    };
    
    // Handle connection open
    socket.onopen = function() {
        console.log('WebSocket connected for live reload');
    };
    
    // Handle connection close
    socket.onclose = function() {
        console.log('WebSocket connection closed');
        // Try to reconnect after a delay
        setTimeout(() => {
            window.location.reload();
        }, 5000);
    };
    
    // Handle connection errors
    socket.onerror = function(error) {
        console.error('WebSocket error:', error);
    };
</script>
"#;

/// What stands before the port in the address of a preview.
pub const URL_PREFIX: &'static str = "http://localhost:";

/// How long, in milliseconds, a start waits before it opens the browser.
pub const START_BROWSER_DELAY_MS: u64 = 1000;

/// How long, in milliseconds, the server waits before it opens the browser.
pub const SERVER_BROWSER_DELAY_MS: u64 = 500;

/// What takes the place of a body end marker: the script, the marker, and a
/// line break.
pub open spec fn script_and_marker() -> Seq<char> {
    RELOAD_SCRIPT@ + BODY_END@ + seq!['\n']
}

/// The document with the reload script put in. The script goes
/// immediately before each body end marker; a document without a marker
/// gets the script at its end.
pub open spec fn with_reload_script(document: Seq<char>) -> Seq<char> {
    if contains(document, BODY_END@) {
        replace_all(document, BODY_END@, script_and_marker())
    } else {
        document + RELOAD_SCRIPT@
    }
}

/// The address of the preview on `port`.
pub open spec fn url_of(port: u16) -> Seq<char> {
    URL_PREFIX@ + decimal(port as nat)
}

/// Puts the reload script into a rendered document.
pub fn inject_reload_script(document: &str) -> (page: String)
    ensures
        page@ == with_reload_script(document@),
{
    let text = chars_of(document);
    let marker = chars_of(BODY_END);
    let script = chars_of(RELOAD_SCRIPT);
    if includes(text.as_slice(), marker.as_slice()) {
        let mut with: Vec<char> = Vec::new();
        push_range(&mut with, script.as_slice(), 0, script.len());
        push_range(&mut with, marker.as_slice(), 0, marker.len());
        with.push('\n');
        assert(script@.subrange(0, script@.len() as int) == script@);
        assert(marker@.subrange(0, marker@.len() as int) == marker@);
        assert(with@ =~= script_and_marker());
        let page = replace(text.as_slice(), marker.as_slice(), with.as_slice());
        string_of(page.as_slice())
    } else {
        let mut page = text;
        push_range(&mut page, script.as_slice(), 0, script.len());
        assert(script@.subrange(0, script@.len() as int) == script@);
        string_of(page.as_slice())
    }
}

/// The address of the preview on `port`.
pub fn preview_url(port: u16) -> (url: String)
    ensures
        url@ == url_of(port),
{
    let mut url = chars_of(URL_PREFIX);
    push_decimal(&mut url, port as u32);
    string_of(url.as_slice())
}

/// Why server mode cannot begin.
#[derive(Clone, Copy, PartialEq, Eq, Debug, Structural)]
pub enum ServerError {
    /// The registry holds no record for the watched file, so the port is
    /// not known.
    RecordNotFound,
    /// What the registry holds for the watched file is no record.
    RecordCorrupt,
    /// The watched file could not be read.
    FileUnreadable,
    /// The directory of the watched file could not be subscribed to.
    WatchSetupFailure,
}

/// What server mode starts from.
#[derive(Debug)]
pub struct ServerMode {
    /// The port to listen on.
    pub port: u16,
    /// The channel, holding the content that was read first.
    pub channel: ContentChannel,
}

/// Sets server mode up from what was found: the record of the watched
/// file, the content of the file (`None` if it could not be read), and
/// whether the watcher could subscribe.
///
/// The three are looked at in this order, and the first that is missing
/// decides the error; what comes after it is not looked at.
pub fn run_server(record: Lookup, content: Option<String>, watching: bool) -> (mode: Result<
    ServerMode,
    ServerError,
>)
    ensures
        match record {
            Lookup::NotFound => mode matches Err(e) && e == ServerError::RecordNotFound,
            Lookup::Corrupt => mode matches Err(e) && e == ServerError::RecordCorrupt,
            Lookup::Found(found) => match content {
                None => mode matches Err(e) && e == ServerError::FileUnreadable,
                Some(text) => if watching {
                    mode matches Ok(m) && m.port == found.port && m.channel@ == text@
                } else {
                    mode matches Err(e) && e == ServerError::WatchSetupFailure
                },
            },
        },
{
    match record {
        Lookup::NotFound => Err(ServerError::RecordNotFound),
        Lookup::Corrupt => Err(ServerError::RecordCorrupt),
        Lookup::Found(found) => match content {
            None => Err(ServerError::FileUnreadable),
            Some(text) => {
                if watching {
                    Ok(ServerMode { port: found.port, channel: ContentChannel::new(text) })
                } else {
                    Err(ServerError::WatchSetupFailure)
                }
            },
        },
    }
}

/// In a document with one body end marker the script stands immediately
/// before the marker, and nothing else changes but for a line break after
/// the marker.
pub proof fn law_script_before_marker(document: Seq<char>, k: int)
    requires
        occurs_at(document, BODY_END@, k),
        forall|j: int| j != k ==> !occurs_at(document, BODY_END@, j),
    ensures
        with_reload_script(document) == document.take(k) + RELOAD_SCRIPT@ + BODY_END@ + seq![
            '\n',
        ] + document.skip(k + BODY_END@.len()),
{
    reveal_strlit("</body>");
    let marker = BODY_END@;
    assert(marker.len() == 7);
    let tail = document.skip(k + marker.len());
    lemma_replace_first(document, marker, script_and_marker(), k);
    assert forall|j: int| !occurs_at(tail, marker, j) by {
        if occurs_at(tail, marker, j) {
            assert(tail.subrange(j, j + marker.len()) == document.subrange(
                k + marker.len() + j,
                k + marker.len() + j + marker.len(),
            ));
            assert(occurs_at(document, marker, k + marker.len() + j));
        }
    }
    lemma_replace_none(tail, marker, script_and_marker());
    assert(document.take(k) + script_and_marker() + tail =~= document.take(k) + RELOAD_SCRIPT@
        + BODY_END@ + seq!['\n'] + tail);
}

/// A document without a body end marker gets the script at its end.
pub proof fn law_script_appended(document: Seq<char>)
    requires
        !contains(document, BODY_END@),
    ensures
        with_reload_script(document) == document + RELOAD_SCRIPT@,
{
}

} // verus!
