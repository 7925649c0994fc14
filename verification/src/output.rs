use vstd::prelude::*;
use vstd::string::*;
use vstd::utf8::{decode_utf8, encode_utf8, encode_utf8_decode_utf8};
use crate::element::{ConsoleMessage, ElementInfo, NetworkRequest};
use crate::json::{pretty_string_list, pretty_strings};
use crate::session::SessionInfo;
use crate::text::{dec, join, pad, push_dec, push_padded, render_dec};

verus! {

/// How command results are printed: human-readable text or JSON.
#[derive(Clone, Copy, Debug, PartialEq, Eq, Structural)]
pub enum OutputFormat {
    Text,
    Json,
}

/// `"true"` or `"false"`.
pub open spec fn bool_text(b: bool) -> Seq<char> {
    if b {
        "true"@
    } else {
        "false"@
    }
}

/// Lines joined by newlines.
pub open spec fn lines(ls: Seq<Seq<char>>) -> Seq<char> {
    join(ls, "\n"@)
}

/// The text report of one session.
pub open spec fn session_text(s: SessionInfo) -> Seq<char> {
    "Session: "@ + s.id@ + "\nPID: "@ + dec(s.pid as nat) + "\nHeadless: "@ + bool_text(s.headless)
        + "\nWebSocket: "@ + s.ws_url@
}

/// The column headings of the session table.
pub open spec fn sessions_header() -> Seq<char> {
    pad("SESSION"@, 12) + " "@ + pad("PID"@, 8) + " "@ + pad("HEADLESS"@, 10) + " "@ + "WEBSOCKET"@
}

/// One row of the session table.
pub open spec fn session_row(s: SessionInfo) -> Seq<char> {
    pad(s.id@, 12) + " "@ + pad(dec(s.pid as nat), 8) + " "@ + pad(bool_text(s.headless), 10) + " "@
        + s.ws_url@
}

/// The text report of a list of sessions.
pub open spec fn sessions_text(ss: Seq<SessionInfo>) -> Seq<char> {
    if ss.len() == 0 {
        "No active sessions."@
    } else {
        lines(seq![sessions_header()] + ss.map_values(|s: SessionInfo| session_row(s)))
    }
}

/// An element's text as the report quotes it: longer than 60 UTF-8 bytes, it
/// is cut to its first 57 bytes followed by `...`.
pub open spec fn shown_text(t: Seq<char>) -> Seq<char> {
    if encode_utf8(t).len() > 60 {
        decode_utf8(encode_utf8(t).subrange(0, 57)) + "..."@
    } else {
        t
    }
}

/// Whether an element's text can be cut for the report: its UTF-8 length fits
/// in a `usize` and, when it is cut, the cut falls on a character boundary
/// (the report cannot cut inside a character).
pub open spec fn text_cut_ok(t: Seq<char>) -> bool {
    &&& encode_utf8(t).len() <= usize::MAX
    &&& encode_utf8(t).len() > 60 ==> vstd::utf8::is_char_boundary(encode_utf8(t), 57)
}

/// Whether an element can be reported as text.
pub open spec fn element_reportable(e: ElementInfo) -> bool {
    &&& e.text matches Some(t) ==> text_cut_ok(t@)
    &&& e.match_count > 1 ==> e.match_index < usize::MAX
}

/// The quoted-text part of an element's report line: empty unless the
/// element has non-empty text.
pub open spec fn element_text_part(e: ElementInfo) -> Seq<char> {
    match e.text {
        Some(t) => if t@.len() > 0 {
            " \""@ + shown_text(t@) + "\""@
        } else {
            Seq::empty()
        },
        None => Seq::empty(),
    }
}

/// The `[i/n]` part of an element's report line: empty unless several
/// elements match.
pub open spec fn element_count_part(e: ElementInfo) -> Seq<char> {
    if e.match_count > 1 {
        " ["@ + dec((e.match_index + 1) as nat) + "/"@ + dec(e.match_count as nat) + "]"@
    } else {
        Seq::empty()
    }
}

/// The `(WxH at X,Y)` part of an element's report line: empty without a box.
pub open spec fn element_box_part(e: ElementInfo) -> Seq<char> {
    match e.bounding_box {
        Some(b) => " ("@ + b.width@ + "x"@ + b.height@ + " at "@ + b.x@ + ","@ + b.y@ + ")"@,
        None => Seq::empty(),
    }
}

/// The text report line of one element: `<tag>`, then the quoted text when it
/// is non-empty, then `[i/n]` when several elements match, then the box as
/// `(WxH at X,Y)` when there is one, separated by spaces.
pub open spec fn element_line(e: ElementInfo) -> Seq<char> {
    "<"@ + e.tag_name@ + ">"@ + element_text_part(e) + element_count_part(e) + element_box_part(e)
}

/// The text report of a list of elements.
pub open spec fn elements_text(es: Seq<ElementInfo>) -> Seq<char> {
    if es.len() == 0 {
        "No elements found."@
    } else {
        lines(es.map_values(|e: ElementInfo| element_line(e)))
    }
}

/// The text report of console messages: `[level] text` per line.
pub open spec fn console_text(ms: Seq<ConsoleMessage>) -> Seq<char> {
    if ms.len() == 0 {
        "No console messages."@
    } else {
        lines(ms.map_values(|m: ConsoleMessage| "["@ + m.level@ + "] "@ + m.text@))
    }
}

/// The column headings of the network table.
pub open spec fn network_header() -> Seq<char> {
    pad("METHOD"@, 6) + " "@ + pad("STATUS"@, 6) + " "@ + pad("TYPE"@, 12) + " "@ + "URL"@
}

/// One row of the network table; a missing status or type shows as `-`.
pub open spec fn network_row(r: NetworkRequest) -> Seq<char> {
    let status = match r.status {
        Some(s) => dec(s as nat),
        None => "-"@,
    };
    let kind = match r.resource_type {
        Some(t) => t@,
        None => "-"@,
    };
    pad(r.method@, 6) + " "@ + pad(status, 6) + " "@ + pad(kind, 12) + " "@ + r.url@
}

/// The text report of captured network requests.
pub open spec fn network_text(rs: Seq<NetworkRequest>) -> Seq<char> {
    if rs.len() == 0 {
        "No network requests."@
    } else {
        lines(seq![network_header()] + rs.map_values(|r: NetworkRequest| network_row(r)))
    }
}

/// Appends line `i` of a newline-joined report: a newline first unless it is
/// the first line.
fn push_line(out: &mut String, ghost_lines: Ghost<Seq<Seq<char>>>, i: usize, line: &String)
    requires
        i < ghost_lines@.len(),
        line@ == ghost_lines@[i as int],
        old(out)@ == lines(ghost_lines@.take(i as int)),
    ensures
        final(out)@ == lines(ghost_lines@.take(i + 1)),
{
    let ghost ls = ghost_lines@;
    assert(ls.take(i + 1).drop_last() =~= ls.take(i as int));
    assert(ls.take(i + 1).last() == ls[i as int]);
    if i > 0 {
        out.append("\n");
    }
    out.append(line.as_str());
    if i == 0 {
        assert(ls.take(0) =~= Seq::<Seq<char>>::empty());
        assert(out@ =~= lines(ls.take(1)));
    }
}

/// Appends `"true"` or `"false"`.
fn bool_str(b: bool) -> (r: &'static str)
    ensures
        r@ == bool_text(b),
{
    if b {
        "true"
    } else {
        "false"
    }
}

/// Text report of a session, or `None` for JSON (the caller serialises).
pub fn format_session(session: &SessionInfo, format: OutputFormat) -> (r: Option<String>)
    ensures
        match format {
            OutputFormat::Text => r matches Some(t) && t@ == session_text(*session),
            OutputFormat::Json => r is None,
        },
{
    match format {
        OutputFormat::Json => None,
        OutputFormat::Text => {
            let mut r = String::from_str("Session: ");
            r.append(session.id.as_str());
            r.append("\nPID: ");
            push_dec(&mut r, session.pid as u128);
            r.append("\nHeadless: ");
            r.append(bool_str(session.headless));
            r.append("\nWebSocket: ");
            r.append(session.ws_url.as_str());
            Some(r)
        },
    }
}

/// Text table of sessions, or `None` for JSON (the caller serialises).
pub fn format_sessions(sessions: &Vec<SessionInfo>, format: OutputFormat) -> (r: Option<String>)
    ensures
        match format {
            OutputFormat::Text => r matches Some(t) && t@ == sessions_text(sessions@),
            OutputFormat::Json => r is None,
        },
{
    if format == OutputFormat::Json {
        return None;
    }
    if sessions.len() == 0 {
        return Some(String::from_str("No active sessions."));
    }
    let ghost ls = seq![sessions_header()] + sessions@.map_values(|s: SessionInfo| session_row(s));
    let mut out = String::new();
    let mut header = String::new();
    push_padded(&mut header, "SESSION", 12);
    header.append(" ");
    push_padded(&mut header, "PID", 8);
    header.append(" ");
    push_padded(&mut header, "HEADLESS", 10);
    header.append(" ");
    header.append("WEBSOCKET");
    assert(header@ =~= sessions_header());
    assert(out@ =~= lines(ls.take(0)));
    push_line(&mut out, Ghost(ls), 0, &header);
    let mut i: usize = 0;
    while i < sessions.len()
        invariant
            i <= sessions@.len(),
            ls == seq![sessions_header()] + sessions@.map_values(|s: SessionInfo| session_row(s)),
            out@ == lines(ls.take(i + 1)),
        decreases sessions.len() - i,
    {
        let s = &sessions[i];
        let mut row = String::new();
        push_padded(&mut row, s.id.as_str(), 12);
        row.append(" ");
        push_padded(&mut row, render_dec(s.pid as u128).as_str(), 8);
        row.append(" ");
        push_padded(&mut row, bool_str(s.headless), 10);
        row.append(" ");
        row.append(s.ws_url.as_str());
        assert(row@ =~= session_row(sessions@[i as int]));
        assert(ls[i + 1] == session_row(sessions@[i as int]));
        push_line(&mut out, Ghost(ls), i + 1, &row);
        i = i + 1;
    }
    assert(ls.take(i + 1) =~= ls);
    Some(out)
}

/// Appends the quoted-text part of an element's report line.
fn push_text_part(r: &mut String, e: &ElementInfo)
    requires
        element_reportable(*e),
    ensures
        final(r)@ == old(r)@ + element_text_part(*e),
{
    let ghost start = r@;
    match &e.text {
        Some(t) => {
            if !t.as_str().is_empty() {
                r.append(" \"");
                let s = t.as_str();
                if s.len() > 60 {
                    let (head, _) = s.split_at(57);
                    proof {
                        encode_utf8_decode_utf8(head@);
                        assert(head.spec_bytes() =~= encode_utf8(t@).subrange(0, 57));
                    }
                    r.append(head);
                    r.append("...");
                    assert(r@ =~= start + " \""@ + shown_text(t@));
                } else {
                    r.append(s);
                    assert(r@ =~= start + " \""@ + shown_text(t@));
                }
                r.append("\"");
                assert(r@ =~= start + element_text_part(*e));
            } else {
                assert(r@ =~= start + element_text_part(*e));
            }
        },
        None => {
            assert(r@ =~= start + element_text_part(*e));
        },
    }
}

/// Appends the `[i/n]` part of an element's report line.
fn push_count_part(r: &mut String, e: &ElementInfo)
    requires
        element_reportable(*e),
    ensures
        final(r)@ == old(r)@ + element_count_part(*e),
{
    let ghost start = r@;
    if e.match_count > 1 {
        r.append(" [");
        push_dec(r, (e.match_index + 1) as u128);
        r.append("/");
        push_dec(r, e.match_count as u128);
        r.append("]");
    }
    assert(r@ =~= start + element_count_part(*e));
}

/// Appends the `(WxH at X,Y)` part of an element's report line.
fn push_box_part(r: &mut String, e: &ElementInfo)
    ensures
        final(r)@ == old(r)@ + element_box_part(*e),
{
    let ghost start = r@;
    match &e.bounding_box {
        Some(b) => {
            r.append(" (");
            r.append(b.width.as_str());
            r.append("x");
            r.append(b.height.as_str());
            r.append(" at ");
            r.append(b.x.as_str());
            r.append(",");
            r.append(b.y.as_str());
            r.append(")");
        },
        None => {},
    }
    assert(r@ =~= start + element_box_part(*e));
}

/// The report line of one element (see `element_line`).
fn element_line_text(e: &ElementInfo) -> (r: String)
    requires
        element_reportable(*e),
    ensures
        r@ == element_line(*e),
{
    let mut r = String::from_str("<");
    r.append(e.tag_name.as_str());
    r.append(">");
    push_text_part(&mut r, e);
    push_count_part(&mut r, e);
    push_box_part(&mut r, e);
    r
}

/// Text report of found elements, or `None` for JSON (the caller serialises).
pub fn format_elements(elements: &Vec<ElementInfo>, format: OutputFormat) -> (r: Option<String>)
    requires
        format == OutputFormat::Text ==> forall|i: int|
            0 <= i < elements@.len() ==> element_reportable(#[trigger] elements@[i]),
    ensures
        match format {
            OutputFormat::Text => r matches Some(t) && t@ == elements_text(elements@),
            OutputFormat::Json => r is None,
        },
{
    if format == OutputFormat::Json {
        return None;
    }
    if elements.len() == 0 {
        return Some(String::from_str("No elements found."));
    }
    let ghost ls = elements@.map_values(|e: ElementInfo| element_line(e));
    let mut out = String::new();
    assert(out@ =~= lines(ls.take(0)));
    let mut i: usize = 0;
    while i < elements.len()
        invariant
            i <= elements@.len(),
            forall|k: int| 0 <= k < elements@.len() ==> element_reportable(#[trigger] elements@[k]),
            ls == elements@.map_values(|e: ElementInfo| element_line(e)),
            out@ == lines(ls.take(i as int)),
        decreases elements.len() - i,
    {
        let line = element_line_text(&elements[i]);
        push_line(&mut out, Ghost(ls), i, &line);
        i = i + 1;
    }
    assert(ls.take(i as int) =~= ls);
    Some(out)
}

/// Texts one per line, or the pretty JSON array of them.
pub fn format_text(texts: &Vec<String>, format: OutputFormat) -> (r: String)
    ensures
        match format {
            OutputFormat::Text => r@ == lines(texts@.map_values(|s: String| s@)),
            OutputFormat::Json => r@ == pretty_string_list(texts@.map_values(|s: String| s@)),
        },
{
    if format == OutputFormat::Json {
        return pretty_strings(texts);
    }
    let ghost ls = texts@.map_values(|s: String| s@);
    let mut out = String::new();
    assert(out@ =~= lines(ls.take(0)));
    let mut i: usize = 0;
    while i < texts.len()
        invariant
            i <= texts@.len(),
            ls == texts@.map_values(|s: String| s@),
            out@ == lines(ls.take(i as int)),
        decreases texts.len() - i,
    {
        push_line(&mut out, Ghost(ls), i, &texts[i]);
        i = i + 1;
    }
    assert(ls.take(i as int) =~= ls);
    out
}

/// Console messages as `[level] text` lines, or `None` for JSON (the caller
/// serialises).
pub fn format_console(messages: &Vec<ConsoleMessage>, format: OutputFormat) -> (r: Option<String>)
    ensures
        match format {
            OutputFormat::Text => r matches Some(t) && t@ == console_text(messages@),
            OutputFormat::Json => r is None,
        },
{
    if format == OutputFormat::Json {
        return None;
    }
    if messages.len() == 0 {
        return Some(String::from_str("No console messages."));
    }
    let ghost ls = messages@.map_values(|m: ConsoleMessage| "["@ + m.level@ + "] "@ + m.text@);
    let mut out = String::new();
    assert(out@ =~= lines(ls.take(0)));
    let mut i: usize = 0;
    while i < messages.len()
        invariant
            i <= messages@.len(),
            ls == messages@.map_values(|m: ConsoleMessage| "["@ + m.level@ + "] "@ + m.text@),
            out@ == lines(ls.take(i as int)),
        decreases messages.len() - i,
    {
        let m = &messages[i];
        let mut line = String::from_str("[");
        line.append(m.level.as_str());
        line.append("] ");
        line.append(m.text.as_str());
        assert(line@ =~= ls[i as int]);
        push_line(&mut out, Ghost(ls), i, &line);
        i = i + 1;
    }
    assert(ls.take(i as int) =~= ls);
    Some(out)
}

/// Network requests as a table, or `None` for JSON (the caller serialises).
pub fn format_network(requests: &Vec<NetworkRequest>, format: OutputFormat) -> (r: Option<String>)
    ensures
        match format {
            OutputFormat::Text => r matches Some(t) && t@ == network_text(requests@),
            OutputFormat::Json => r is None,
        },
{
    if format == OutputFormat::Json {
        return None;
    }
    if requests.len() == 0 {
        return Some(String::from_str("No network requests."));
    }
    let ghost ls = seq![network_header()] + requests@.map_values(|r: NetworkRequest| network_row(r));
    let mut out = String::new();
    let mut header = String::new();
    push_padded(&mut header, "METHOD", 6);
    header.append(" ");
    push_padded(&mut header, "STATUS", 6);
    header.append(" ");
    push_padded(&mut header, "TYPE", 12);
    header.append(" ");
    header.append("URL");
    assert(header@ =~= network_header());
    assert(out@ =~= lines(ls.take(0)));
    push_line(&mut out, Ghost(ls), 0, &header);
    let mut i: usize = 0;
    while i < requests.len()
        invariant
            i <= requests@.len(),
            ls == seq![network_header()] + requests@.map_values(|r: NetworkRequest| network_row(r)),
            out@ == lines(ls.take(i + 1)),
        decreases requests.len() - i,
    {
        let q = &requests[i];
        let mut row = String::new();
        push_padded(&mut row, q.method.as_str(), 6);
        row.append(" ");
        match q.status {
            Some(s) => push_padded(&mut row, render_dec(s as u128).as_str(), 6),
            None => push_padded(&mut row, "-", 6),
        }
        row.append(" ");
        match &q.resource_type {
            Some(t) => push_padded(&mut row, t.as_str(), 12),
            None => push_padded(&mut row, "-", 12),
        }
        row.append(" ");
        row.append(q.url.as_str());
        assert(row@ =~= network_row(requests@[i as int]));
        assert(ls[i + 1] == network_row(requests@[i as int]));
        push_line(&mut out, Ghost(ls), i + 1, &row);
        i = i + 1;
    }
    assert(ls.take(i + 1) =~= ls);
    Some(out)
}

} // verus!
