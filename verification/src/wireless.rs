//! Pairing and discovery for wireless debugging (adb over Wi-Fi).
//!
//! Reads the output of `adb connect`, `adb pair` and `adb mdns services`.
//! `adb connect`/`pair` print their outcome on stdout and usually exit with
//! code 0 even when they fail, so success is decided from the text.

use vstd::prelude::*;

use crate::adb_error::{adb_view, AdbError, AdbErrorView};
use crate::model::owned_string;
use crate::text::{
    ascii_lower_seq, chars_of, eq_chars, split_at_char, split_chars, split_concat, split_plain,
    split_words, starts_with,
    starts_with_chars, starts_with_lower, string_of, trim, trim_chars, words,
};

verus! {

/// Kind of mDNS service that Android's wireless debugging announces.
#[derive(Debug, Clone, PartialEq, Eq)]
pub enum MdnsKind {
    /// Endpoint to connect to (`_adb-tls-connect._tcp`).
    Connect,
    /// Endpoint for pairing by code (`_adb-tls-pairing._tcp`).
    Pairing,
    /// Another kind of service.
    Other(String),
}

/// A service kind with the text of `Other` as characters.
pub enum MdnsKindView {
    Connect,
    Pairing,
    Other(Seq<char>),
}

impl View for MdnsKind {
    type V = MdnsKindView;

    open spec fn view(&self) -> MdnsKindView {
        match self {
            MdnsKind::Connect => MdnsKindView::Connect,
            MdnsKind::Pairing => MdnsKindView::Pairing,
            MdnsKind::Other(s) => MdnsKindView::Other(s@),
        }
    }
}

/// An mDNS service found by `adb mdns services`.
#[derive(Debug, Clone, PartialEq, Eq)]
pub struct MdnsService {
    pub instance: String,
    pub kind: MdnsKind,
    /// Address `host:port`.
    pub addr: String,
}

/// A service with its texts as characters.
pub struct MdnsServiceView {
    pub instance: Seq<char>,
    pub kind: MdnsKindView,
    pub addr: Seq<char>,
}

impl View for MdnsService {
    type V = MdnsServiceView;

    open spec fn view(&self) -> MdnsServiceView {
        MdnsServiceView { instance: self.instance@, kind: self.kind@, addr: self.addr@ }
    }
}

impl DeepView for MdnsService {
    type V = MdnsServiceView;

    open spec fn deep_view(&self) -> MdnsServiceView {
        self@
    }
}

/// The kind that a service type names.
pub open spec fn mdns_kind_of(s: Seq<char>) -> MdnsKindView {
    if s == "_adb-tls-connect._tcp"@ {
        MdnsKindView::Connect
    } else if s == "_adb-tls-pairing._tcp"@ {
        MdnsKindView::Pairing
    } else {
        MdnsKindView::Other(s)
    }
}

/// The service a line describes: `instance type host:port`.
pub open spec fn mdns_line(line: Seq<char>) -> Option<MdnsServiceView> {
    let w = words(line);
    if w.len() < 3 {
        None
    } else {
        Some(MdnsServiceView { instance: w[0], kind: mdns_kind_of(w[1]), addr: w[2] })
    }
}

/// A line that only carries noise: blank, a daemon notice (`* ...`) or the header.
pub open spec fn mdns_noise(l: Seq<char>) -> bool {
    l.len() == 0 || starts_with(l, seq!['*']) || l == "List of discovered mdns services"@
}

/// The services that some lines describe.
pub open spec fn mdns_lines(lines: Seq<Seq<char>>) -> Seq<MdnsServiceView>
    decreases lines.len(),
{
    if lines.len() == 0 {
        seq![]
    } else {
        let prev = mdns_lines(lines.drop_last());
        let l = trim(lines.last());
        if mdns_noise(l) {
            prev
        } else {
            match mdns_line(l) {
                Some(m) => prev.push(m),
                None => prev,
            }
        }
    }
}

/// The services listed in the output of `adb mdns services`.
pub open spec fn mdns_services_of(output: Seq<char>) -> Seq<MdnsServiceView> {
    mdns_lines(split_at_char(output, '\n'))
}

/// Some line of `output`, trimmed and in ASCII lower case, begins with one of
/// the two prefixes.
pub open spec fn some_line_starts_with(output: Seq<char>, p: Seq<char>, q: Seq<char>) -> bool {
    let lines = split_at_char(output, '\n');
    exists|i: int|
        0 <= i < lines.len() && (starts_with(ascii_lower_seq(trim(#[trigger] lines[i])), p)
            || starts_with(ascii_lower_seq(trim(lines[i])), q))
}

/// `adb connect` succeeded: a line reads `connected to ...` or
/// `already connected ...`, in any case.
pub open spec fn connect_succeeded(output: Seq<char>) -> bool {
    some_line_starts_with(output, "connected to"@, "already connected"@)
}

/// `adb pair` succeeded: a line reads `successfully paired ...`, in any case.
pub open spec fn pair_succeeded(output: Seq<char>) -> bool {
    some_line_starts_with(output, "successfully paired"@, "successfully paired"@)
}

impl MdnsKind {
    fn parse(s: &[char]) -> (r: MdnsKind)
        ensures
            r@ == mdns_kind_of(s@),
    {
        if eq_chars(s, chars_of("_adb-tls-connect._tcp").as_slice()) {
            MdnsKind::Connect
        } else if eq_chars(s, chars_of("_adb-tls-pairing._tcp").as_slice()) {
            MdnsKind::Pairing
        } else {
            MdnsKind::Other(string_of(s))
        }
    }
}

fn parse_mdns_line(line: &[char]) -> (r: Option<MdnsService>)
    ensures
        match r {
            Some(m) => mdns_line(line@) == Some(m@),
            None => mdns_line(line@) is None,
        },
{
    let w = split_words(line);
    if w.len() < 3 {
        return None;
    }
    let ghost ws = w.deep_view();
    assert(ws[0] == w[0]@ && ws[1] == w[1]@ && ws[2] == w[2]@);
    let instance = string_of(w[0].as_slice());
    let kind = MdnsKind::parse(w[1].as_slice());
    let addr = string_of(w[2].as_slice());
    Some(MdnsService { instance, kind, addr })
}

/// Reads the output of `adb mdns services`.
///
/// One service per line: `instance<ws>type<ws>host:port`. The header and the
/// daemon lines (`* ...`) are skipped.
pub fn parse_mdns_services(output: &str) -> (r: Vec<MdnsService>)
    ensures
        r.deep_view() == mdns_services_of(output@),
{
    let text = chars_of(output);
    let lines = split_chars(text.as_slice(), '\n');
    let ghost ls = lines.deep_view();
    let header = chars_of("List of discovered mdns services");
    let star: Vec<char> = vec!['*'];
    let mut r: Vec<MdnsService> = Vec::new();
    let mut i: usize = 0;
    while i < lines.len()
        invariant
            i <= lines@.len(),
            ls == lines.deep_view(),
            ls == split_at_char(output@, '\n'),
            header@ == "List of discovered mdns services"@,
            star@ == seq!['*'],
            r.deep_view() == mdns_lines(ls.take(i as int)),
        decreases lines@.len() - i,
    {
        assert(ls.take(i + 1).drop_last() =~= ls.take(i as int));
        assert(ls[i as int] == lines[i as int]@);
        let l = trim_chars(lines[i].as_slice());
        let noise = l.len() == 0 || starts_with_chars(l.as_slice(), star.as_slice()) || eq_chars(
            l.as_slice(),
            header.as_slice(),
        );
        if !noise {
            match parse_mdns_line(l.as_slice()) {
                Some(m) => {
                    let ghost prev = r.deep_view();
                    let ghost mv = m@;
                    r.push(m);
                    assert(r.deep_view() =~= prev.push(mv));
                },
                None => {},
            }
        }
        i = i + 1;
    }
    assert(ls.take(ls.len() as int) =~= ls);
    r
}

/// Whether some line of `output`, trimmed and lower-cased, begins with `p` or `q`.
fn any_line_starts_with(output: &str, p: &str, q: &str) -> (r: bool)
    ensures
        r == some_line_starts_with(output@, p@, q@),
{
    let text = chars_of(output);
    let lines = split_chars(text.as_slice(), '\n');
    let ghost ls = lines.deep_view();
    let pv = chars_of(p);
    let qv = chars_of(q);
    let mut i: usize = 0;
    while i < lines.len()
        invariant
            i <= lines@.len(),
            ls == lines.deep_view(),
            ls == split_at_char(output@, '\n'),
            pv@ == p@,
            qv@ == q@,
            forall|k: int|
                0 <= k < i ==> !(starts_with(ascii_lower_seq(trim(#[trigger] ls[k])), p@)
                    || starts_with(ascii_lower_seq(trim(ls[k])), q@)),
        decreases lines@.len() - i,
    {
        assert(ls[i as int] == lines[i as int]@);
        let l = trim_chars(lines[i].as_slice());
        if starts_with_lower(l.as_slice(), pv.as_slice()) || starts_with_lower(
            l.as_slice(),
            qv.as_slice(),
        ) {
            return true;
        }
        i = i + 1;
    }
    false
}

/// Reads the output of `adb connect <host:port>`.
///
/// `connected to ...` or `already connected to ...` means success; anything
/// else (`failed to connect`, `cannot connect`, ...) is an error with the detail.
pub fn parse_connect_result(target: &str, output: &str) -> (r: Result<(), AdbError>)
    ensures
        adb_view(r) == if connect_succeeded(output@) {
            Ok(())
        } else {
            Err(AdbErrorView::ConnectFailed { target: target@, detail: trim(output@) })
        },
{
    // The success line may come after a daemon notice, so every line is scanned.
    if any_line_starts_with(output, "connected to", "already connected") {
        Ok(())
    } else {
        let detail = trim_chars(chars_of(output).as_slice());
        Err(
            AdbError::ConnectFailed {
                target: owned_string(target),
                detail: string_of(detail.as_slice()),
            },
        )
    }
}

/// Reads the output of `adb pair <host:port> <code>`.
///
/// `Successfully paired ...` means success; anything else is an error with
/// the detail.
pub fn parse_pair_result(target: &str, output: &str) -> (r: Result<(), AdbError>)
    ensures
        adb_view(r) == if pair_succeeded(output@) {
            Ok(())
        } else {
            Err(AdbErrorView::PairFailed { target: target@, detail: trim(output@) })
        },
{
    if any_line_starts_with(output, "successfully paired", "successfully paired") {
        Ok(())
    } else {
        let detail = trim_chars(chars_of(output).as_slice());
        Err(
            AdbError::PairFailed { target: owned_string(target), detail: string_of(detail.as_slice()) },
        )
    }
}

/// A line that, trimmed and in ASCII lower case, begins with `p` makes
/// [`some_line_starts_with`] hold wherever that line stands: after any other
/// output (daemon notices included) or before it.
proof fn lemma_line_anywhere(output: Seq<char>, line: Seq<char>, p: Seq<char>, q: Seq<char>)
    requires
        !line.contains('\n'),
        starts_with(ascii_lower_seq(trim(line)), p),
    ensures
        some_line_starts_with(output + seq!['\n'] + line, p, q),
        some_line_starts_with(line + seq!['\n'] + output, p, q),
{
    split_concat(output, line, '\n');
    split_plain(line, '\n');
    let after = split_at_char(output + seq!['\n'] + line, '\n');
    assert(after[after.len() - 1] == line);
    split_concat(line, output, '\n');
    let before = split_at_char(line + seq!['\n'] + output, '\n');
    assert(before[0] == line);
}

/// `adb pair` is read as a success exactly when some line of its output,
/// trimmed and in ASCII lower case, begins with `successfully paired`; such a
/// line counts wherever it comes, before or after daemon notices.
pub proof fn pair_success_line_anywhere(output: Seq<char>, line: Seq<char>)
    requires
        !line.contains('\n'),
        starts_with(ascii_lower_seq(trim(line)), "successfully paired"@),
    ensures
        pair_succeeded(output + seq!['\n'] + line),
        pair_succeeded(line + seq!['\n'] + output),
{
    lemma_line_anywhere(output, line, "successfully paired"@, "successfully paired"@);
}

/// `adb connect` is read as a success when some line, trimmed and in ASCII
/// lower case, begins with `connected to` or `already connected`, wherever
/// that line comes.
pub proof fn connect_success_line_anywhere(output: Seq<char>, line: Seq<char>)
    requires
        !line.contains('\n'),
        starts_with(ascii_lower_seq(trim(line)), "connected to"@) || starts_with(
            ascii_lower_seq(trim(line)),
            "already connected"@,
        ),
    ensures
        connect_succeeded(output + seq!['\n'] + line),
        connect_succeeded(line + seq!['\n'] + output),
{
    if starts_with(ascii_lower_seq(trim(line)), "connected to"@) {
        lemma_line_anywhere(output, line, "connected to"@, "already connected"@);
    } else {
        lemma_line_anywhere(output, line, "already connected"@, "connected to"@);
        let a = split_at_char(output + seq!['\n'] + line, '\n');
        let b = split_at_char(line + seq!['\n'] + output, '\n');
        let i = choose|i: int|
            0 <= i < a.len() && (starts_with(ascii_lower_seq(trim(#[trigger] a[i])), "already connected"@)
                || starts_with(ascii_lower_seq(trim(a[i])), "connected to"@));
        let j = choose|j: int|
            0 <= j < b.len() && (starts_with(ascii_lower_seq(trim(#[trigger] b[j])), "already connected"@)
                || starts_with(ascii_lower_seq(trim(b[j])), "connected to"@));
        assert(starts_with(ascii_lower_seq(trim(a[i])), "connected to"@) || starts_with(
            ascii_lower_seq(trim(a[i])),
            "already connected"@,
        ));
        assert(starts_with(ascii_lower_seq(trim(b[j])), "connected to"@) || starts_with(
            ascii_lower_seq(trim(b[j])),
            "already connected"@,
        ));
    }
}

/// With no line that says so, pairing fails with the trimmed output as its
/// detail: the outcome never depends on anything but the lines' beginnings.
pub proof fn pair_fails_without_success_line(output: Seq<char>)
    requires
        forall|i: int|
            0 <= i < split_at_char(output, '\n').len() ==> !starts_with(
                ascii_lower_seq(trim(#[trigger] split_at_char(output, '\n')[i])),
                "successfully paired"@,
            ),
    ensures
        !pair_succeeded(output),
{
}

} // verus!
