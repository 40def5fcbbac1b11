//! Signals read from the output of a launched application.
//!
//! The host reads the two output streams line by line and hands each line
//! over; the functions here decide which signal, if any, a line gives.

use crate::pattern::{first_capture, first_match, regex_group, regex_match};
use crate::text::{
    after_last, chars_of, contains, find_after_last, find_occurrence, find_stop,
    first_occurrence, first_stop, is_substring, lemma_after_last_absent,
    lemma_first_occurrence_at, lemma_first_stop_at, occurs_at, opt_text, range_is,
};
use vstd::prelude::*;
use vstd::string::*;

verus! {

/// Finds an address that is labelled `Local:` or given with `http://`, on
/// the local host; its one capture group is the port.
pub const LOCAL_ADDRESS_PATTERN: &'static str =
    r"(?:Local:\s*|http://)(?:http://)?(?:localhost|127\.0\.0\.1):(\d+)";

/// Finds any `http` or `https` address.
pub const ANY_ADDRESS_PATTERN: &'static str = r"https?://[^\s]+";

/// The name of the event that tells the host of a successful hot reload.
pub const HOT_RELOAD_EVENT: &'static str = "hot-reload-success";

/// A notification taken from the output of a launched application.
#[derive(Debug)]
pub enum StreamSignal {
    /// The address at which the application can be reached.
    Url(String),
    /// An event for the host, by its name.
    NamedEvent(String),
}

/// A `StreamSignal` by the characters it holds.
pub enum StreamSignalView {
    Url(Seq<char>),
    NamedEvent(Seq<char>),
}

impl View for StreamSignal {
    type V = StreamSignalView;

    open spec fn view(&self) -> StreamSignalView {
        match self {
            StreamSignal::Url(url) => StreamSignalView::Url(url@),
            StreamSignal::NamedEvent(name) => StreamSignalView::NamedEvent(name@),
        }
    }
}

/// An optional signal by its view.
pub open spec fn opt_signal(signal: Option<StreamSignal>) -> Option<StreamSignalView> {
    match signal {
        Some(s) => Some(s@),
        None => None,
    }
}

/// Where the authority of an address begins: after the first `://`, or at
/// the beginning where the address holds none.
pub open spec fn authority_start(address: Seq<char>) -> int {
    let mark = first_occurrence(address, "://"@, 0) + "://"@.len();
    if mark <= address.len() {
        mark
    } else {
        0
    }
}

/// Where the authority of an address ends: at the first `/`, `?` or `#`
/// after its beginning, or at the end of the address.
pub open spec fn authority_end(address: Seq<char>) -> int {
    first_stop(address, path_marks(), authority_start(address), address.len() as int)
}

/// Where the host of an address begins: in its authority, after the last
/// `@`, which ends the name and password of a user.
pub open spec fn host_start(address: Seq<char>) -> int {
    after_last(address, '@', authority_start(address), authority_end(address))
}

/// Where the host of an address ends: at the first `:` after its
/// beginning, which begins the port, or at the end of the authority.
pub open spec fn host_end(address: Seq<char>) -> int {
    first_stop(address, seq![':'], host_start(address), authority_end(address))
}

/// The host of an address: the text after `://`, past the name of a user
/// and its `@`, up to the first `:`, `/`, `?` or `#`.
pub open spec fn host_of(address: Seq<char>) -> Seq<char> {
    address.subrange(host_start(address), host_end(address))
}

/// Whether an address refers to the local host: its host is `localhost` or
/// `127.0.0.1`.
pub open spec fn is_loopback(address: Seq<char>) -> bool {
    host_of(address) == "localhost"@ || host_of(address) == "127.0.0.1"@
}

/// The characters that end the authority of an address.
pub open spec fn path_marks() -> Seq<char> {
    seq!['/', '?', '#']
}

/// An address that is made of a scheme, `://`, a host and a rest has that
/// host, where the scheme holds no `:`, the host none of `:`, `/`, `?`, `#`
/// and `@`, and the rest is empty or begins with the port or the path and
/// holds no `@` before its path.
pub proof fn lemma_host_of_address(scheme: Seq<char>, host: Seq<char>, rest: Seq<char>)
    requires
        !scheme.contains(':'),
        forall|k: int|
            0 <= k < host.len() ==> (#[trigger] host[k]) != ':' && !path_marks().contains(host[k])
                && host[k] != '@',
        rest.len() == 0 || rest[0] == ':' || path_marks().contains(rest[0]),
        forall|k: int|
            0 <= k < first_stop(rest, path_marks(), 0, rest.len() as int) ==> #[trigger] rest[k]
                != '@',
    ensures
        host_of(scheme + "://"@ + host + rest) == host,
{
    reveal_strlit("://");
    let mark = "://"@;
    let address = scheme + mark + host + rest;
    let at = scheme.len() as int;
    let start = at + 3;
    let host_to = start + host.len();
    assert(mark.len() == 3 && mark[0] == ':');
    assert(address.subrange(at, at + 3) =~= mark);
    assert forall|k: int| 0 <= k < at implies !occurs_at(address, mark, k) by {
        if occurs_at(address, mark, k) {
            assert(address.subrange(k, k + 3)[0] == address[k]);
            assert(address[k] == scheme[k]);
        }
    }
    lemma_first_occurrence_at(address, mark, 0, at);
    assert(authority_start(address) == start);
    // The authority ends where the path begins in the rest.
    let rest_stop = first_stop(rest, path_marks(), 0, rest.len() as int);
    lemma_first_stop_bounds(rest, path_marks(), 0, rest.len() as int);
    let end = host_to + rest_stop;
    assert forall|k: int| start <= k < end implies !path_marks().contains(
        #[trigger] address[k],
    ) by {
        if k < host_to {
            assert(address[k] == host[k - start]);
        } else {
            assert(address[k] == rest[k - host_to]);
        }
    }
    if rest_stop < rest.len() {
        assert(address[end] == rest[rest_stop]);
    }
    lemma_first_stop_at(address, path_marks(), start, address.len() as int, end);
    assert(authority_end(address) == end);
    assert forall|k: int| start <= k < end implies #[trigger] address[k] != '@' by {
        if k < host_to {
            assert(address[k] == host[k - start]);
        } else {
            assert(address[k] == rest[k - host_to]);
        }
    }
    lemma_after_last_absent(address, '@', start, end);
    assert(host_start(address) == start);
    assert forall|k: int| start <= k < host_to implies !seq![':'].contains(
        #[trigger] address[k],
    ) by {
        assert(address[k] == host[k - start]);
        assert(forall|c: char| seq![':'].contains(c) ==> c == ':');
    }
    if host_to < end {
        assert(address[host_to] == rest[0]);
        assert(rest_stop > 0);
        assert(!path_marks().contains(rest[0]));
        assert(seq![':'][0] == ':');
    }
    lemma_first_stop_at(address, seq![':'], start, end, host_to);
    assert(host_end(address) == host_to);
    assert(address.subrange(start, host_to) =~= host);
}

/// The first stop of a range lies in the range or at its end, no place
/// before it holds a stop, and it holds one unless it is the end.
pub proof fn lemma_first_stop_bounds(text: Seq<char>, stops: Seq<char>, from: int, to: int)
    requires
        0 <= from <= to <= text.len(),
    ensures
        from <= first_stop(text, stops, from, to) <= to,
        forall|k: int|
            from <= k < first_stop(text, stops, from, to) ==> !stops.contains(#[trigger] text[k]),
        first_stop(text, stops, from, to) < to ==> stops.contains(
            text[first_stop(text, stops, from, to)],
        ),
    decreases to - from,
{
    if from < to && !stops.contains(text[from]) {
        lemma_first_stop_bounds(text, stops, from + 1, to);
    }
}

/// The places at which the host of an address begins and ends.
fn host_bounds(address: &Vec<char>) -> (r: (usize, usize))
    ensures
        r.0 == host_start(address@),
        r.1 == host_end(address@),
        r.0 <= r.1 <= address.len(),
{
    let mark = chars_of("://");
    let found = find_occurrence(address, &mark);
    let start = if mark.len() <= address.len() - found {
        found + mark.len()
    } else {
        0
    };
    let mut marks: Vec<char> = Vec::new();
    marks.push('/');
    marks.push('?');
    marks.push('#');
    assert(marks@ =~= path_marks());
    let end = find_stop(address, &marks, start, address.len());
    let host_from = find_after_last(address, '@', start, end);
    let mut port_mark: Vec<char> = Vec::new();
    port_mark.push(':');
    assert(port_mark@ =~= seq![':']);
    let host_to = find_stop(address, &port_mark, host_from, end);
    (host_from, host_to)
}

/// The host of an address.
pub fn host(address: &str) -> (r: String)
    ensures
        r@ == host_of(address@),
{
    let text = chars_of(address);
    let (from, to) = host_bounds(&text);
    address.substring_char(from, to).to_owned()
}

/// Whether an address refers to the local host.
pub fn refers_to_loopback(address: &str) -> (r: bool)
    ensures
        r == is_loopback(address@),
{
    let text = chars_of(address);
    let (from, to) = host_bounds(&text);
    range_is(&text, from, to, &chars_of("localhost")) || range_is(
        &text,
        from,
        to,
        &chars_of("127.0.0.1"),
    )
}

/// The address that a line gives, from what the two patterns found in it:
/// `port` is the port that the pattern for local addresses captured,
/// `address` what the pattern for any address matched. A port gives the
/// address of that port on the local host; without one, the matched address
/// counts only if it refers to the local host.
pub open spec fn url_from_matches(port: Option<Seq<char>>, address: Option<Seq<char>>) -> Option<
    Seq<char>,
> {
    match port {
        Some(p) => Some("http://localhost:"@ + p),
        None => match address {
            Some(a) => if is_loopback(a) {
                Some(a)
            } else {
                None
            },
            None => None,
        },
    }
}

/// The address at which a line of output says the application can be
/// reached.
pub open spec fn url_in_line(line: Seq<char>) -> Option<Seq<char>> {
    url_from_matches(
        regex_group(LOCAL_ADDRESS_PATTERN@, line, 1),
        regex_match(ANY_ADDRESS_PATTERN@, line),
    )
}

/// Decides on the address from what the two patterns found in a line.
pub fn local_url(port: Option<String>, address: Option<String>) -> (url: Option<String>)
    ensures
        opt_text(url) == url_from_matches(opt_text(port), opt_text(address)),
{
    match port {
        Some(p) => {
            let base = "http://localhost:".to_owned();
            Some(base.concat(p.as_str()))
        },
        None => match address {
            Some(a) => {
                if refers_to_loopback(a.as_str()) {
                    Some(a)
                } else {
                    None
                }
            },
            None => None,
        },
    }
}

/// The address at which a line of output says the application can be
/// reached, if it says so.
pub fn detect_url(line: &str) -> (url: Option<String>)
    ensures
        opt_text(url) == url_in_line(line@),
{
    match first_capture(LOCAL_ADDRESS_PATTERN, line, 1) {
        Some(port) => local_url(Some(port), None),
        None => local_url(None, first_match(ANY_ADDRESS_PATTERN, line)),
    }
}

/// Whether a line of output reports a successful hot reload.
pub open spec fn is_hot_reload_line(line: Seq<char>) -> bool {
    is_substring(line, "Hot reload succeeded"@) || is_substring(
        line,
        "Hot reload of changes succeeded"@,
    )
}

/// The signal that a line of the error stream gives: the hot reload event
/// for every line that reports a successful hot reload, nothing for any
/// other line.
pub fn stderr_signal(line: &str) -> (signal: Option<StreamSignal>)
    ensures
        opt_signal(signal) == if is_hot_reload_line(line@) {
            Some(StreamSignalView::NamedEvent(HOT_RELOAD_EVENT@))
        } else {
            None
        },
{
    let text = chars_of(line);
    if contains(&text, &chars_of("Hot reload succeeded")) || contains(
        &text,
        &chars_of("Hot reload of changes succeeded"),
    ) {
        Some(StreamSignal::NamedEvent(HOT_RELOAD_EVENT.to_owned()))
    } else {
        None
    }
}

/// The reader of the output stream: it remembers whether the address was
/// signalled.
#[derive(Debug)]
pub struct StdoutReader {
    url_sent: bool,
}

/// What reading one line does to the reader of the output stream: whether
/// the address counts as signalled afterwards, and the signal given. Until
/// the address was signalled a line that gives one signals it; after that no
/// line gives a signal.
pub open spec fn stdout_step(url_sent: bool, line: Seq<char>) -> (bool, Option<StreamSignalView>) {
    if url_sent {
        (true, None)
    } else {
        match url_in_line(line) {
            Some(url) => (true, Some(StreamSignalView::Url(url))),
            None => (false, None),
        }
    }
}

/// The signals given while the lines `lines` are read in order, by a reader
/// for which `url_sent` says whether the address was signalled before.
pub open spec fn stdout_signals(url_sent: bool, lines: Seq<Seq<char>>) -> Seq<StreamSignalView>
    decreases lines.len(),
{
    if lines.len() == 0 {
        Seq::empty()
    } else {
        let (sent, signal) = stdout_step(url_sent, lines[0]);
        let later = stdout_signals(sent, lines.drop_first());
        match signal {
            Some(s) => seq![s] + later,
            None => later,
        }
    }
}

impl StdoutReader {
    /// Whether the address was signalled.
    pub closed spec fn url_sent(&self) -> bool {
        self.url_sent
    }

    /// A reader that has signalled nothing yet.
    pub fn new() -> (reader: StdoutReader)
        ensures
            !reader.url_sent(),
    {
        StdoutReader { url_sent: false }
    }

    /// Whether the address was signalled.
    pub fn has_sent_url(&self) -> (sent: bool)
        ensures
            sent == self.url_sent(),
    {
        self.url_sent
    }

    /// Reads one line of the output stream and gives the signal for it.
    pub fn on_line(&mut self, line: &str) -> (signal: Option<StreamSignal>)
        ensures
            (final(self).url_sent(), opt_signal(signal)) == stdout_step(
                old(self).url_sent(),
                line@,
            ),
    {
        if self.url_sent {
            None
        } else {
            match detect_url(line) {
                Some(url) => {
                    self.url_sent = true;
                    Some(StreamSignal::Url(url))
                },
                None => None,
            }
        }
    }
}

/// After the address was signalled no line gives a signal.
pub proof fn lemma_silent_after_url(lines: Seq<Seq<char>>)
    ensures
        stdout_signals(true, lines).len() == 0,
    decreases lines.len(),
{
    if lines.len() > 0 {
        lemma_silent_after_url(lines.drop_first());
    }
}

/// Whatever the output stream holds, the address is signalled at most once:
/// the reader gives at most one signal, and that one is an address.
pub proof fn lemma_at_most_one_url(url_sent: bool, lines: Seq<Seq<char>>)
    ensures
        stdout_signals(url_sent, lines).len() <= 1,
        stdout_signals(url_sent, lines).len() == 1 ==> !url_sent && stdout_signals(
            url_sent,
            lines,
        )[0] is Url,
    decreases lines.len(),
{
    if lines.len() > 0 {
        let (sent, signal) = stdout_step(url_sent, lines[0]);
        lemma_at_most_one_url(sent, lines.drop_first());
        if sent {
            lemma_silent_after_url(lines.drop_first());
        }
    }
}

/// The address signalled is the one of the first line that gives an
/// address: a line that gives one is the only source of the signal when no
/// line before it gives one.
pub proof fn lemma_first_address_is_signalled(lines: Seq<Seq<char>>, i: int)
    requires
        0 <= i < lines.len(),
        url_in_line(lines[i]) is Some,
        forall|j: int| 0 <= j < i ==> url_in_line(#[trigger] lines[j]) is None,
    ensures
        stdout_signals(false, lines) == seq![StreamSignalView::Url(url_in_line(lines[i])->Some_0)],
    decreases i,
{
    let rest = lines.drop_first();
    if i == 0 {
        lemma_silent_after_url(rest);
        assert(stdout_signals(true, rest) =~= Seq::<StreamSignalView>::empty());
        assert(stdout_signals(false, lines) =~= seq![
            StreamSignalView::Url(url_in_line(lines[0])->Some_0),
        ]);
    } else {
        assert(url_in_line(lines[0]) is None);
        assert forall|j: int| 0 <= j < i - 1 implies url_in_line(#[trigger] rest[j]) is None by {
            assert(rest[j] == lines[j + 1]);
        }
        assert(rest[i - 1] == lines[i]);
        lemma_first_address_is_signalled(rest, i - 1);
    }
}

} // verus!
