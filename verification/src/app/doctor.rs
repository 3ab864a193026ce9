//! The `--check` doctor.
//!
//! Three things can be wrong before a single frame has been drawn: the homeserver cannot do
//! what is required, the terminal cannot do what the renderer assumes, or the local store is
//! unreadable. Each has a different fix and none of them is diagnosable from the symptom.
//!
//! Checks report rather than decide. Only [`Status::Fail`] means that nothing will work.

use vstd::prelude::*;
use vstd::string::*;

use crate::app::screen::{pad, padded};
use crate::json::{content, lemma_member, parsed_json, read, Json, JsonModel};
use crate::text::{chars_of, contains, decimal, decimal_text, digit, has_text, join};

verus! {

/// How a check came out.
#[derive(Debug, Clone, Copy, PartialEq, Eq, Structural)]
pub enum Status {
    Good,
    /// Something to know about.
    Warn,
    /// Nothing will work until it is fixed.
    Fail,
}

/// What a check found.
#[derive(Debug, PartialEq, Eq)]
pub struct Finding {
    pub name: String,
    pub status: Status,
    /// Shown beneath the line when there is something to explain.
    pub detail: Option<String>,
}

/// The mathematical content of a [`Finding`].
#[verifier::ext_equal]
pub struct FindingModel {
    pub name: Seq<char>,
    pub status: Status,
    pub detail: Option<Seq<char>>,
}

impl View for Finding {
    type V = FindingModel;

    open spec fn view(&self) -> FindingModel {
        FindingModel {
            name: self.name@,
            status: self.status,
            detail: self.detail.deep_view(),
        }
    }
}

impl DeepView for Finding {
    type V = FindingModel;

    open spec fn deep_view(&self) -> FindingModel {
        self@
    }
}

/// A glyph that was painted, and how many cells it moved the cursor.
#[derive(Debug, PartialEq, Eq)]
pub struct Probe {
    pub glyph: String,
    pub what: String,
    pub expected: usize,
    pub measured: Result<usize, String>,
}

/// What the file system says of a profile's store.
#[derive(Debug, PartialEq, Eq)]
pub struct StoreFacts {
    /// The session file, or why it cannot be read.
    pub session: Result<String, String>,
    /// The permissions of the session file, or why they cannot be read; none where the
    /// platform has no such permissions.
    pub session_mode: Option<Result<u32, String>>,
    /// The permissions of the store directory, likewise.
    pub store_mode: Option<Result<u32, String>>,
    /// How many files are in the store directory, or why that cannot be read.
    pub files: Result<usize, String>,
}

impl Status {
    /// Not `yes` or `no`: most findings report a fact rather than answer a question.
    pub open spec fn written(self) -> Seq<char> {
        match self {
            Status::Good => "ok"@,
            Status::Warn => "warn"@,
            Status::Fail => "FAIL"@,
        }
    }

    /// How the status is shown.
    pub fn label(self) -> (r: &'static str)
        ensures
            r@ == self.written(),
    {
        match self {
            Status::Good => "ok",
            Status::Warn => "warn",
            Status::Fail => "FAIL",
        }
    }
}

/// A finding, made of its parts.
pub open spec fn found(name: Seq<char>, status: Status, detail: Seq<char>) -> FindingModel {
    FindingModel { name, status, detail: Some(detail) }
}

impl Finding {
    pub fn ok(name: &str, detail: &str) -> (r: Self)
        ensures
            r@ == found(name@, Status::Good, detail@),
    {
        Finding { name: name.to_owned(), status: Status::Good, detail: Some(detail.to_owned()) }
    }

    pub fn warn(name: &str, detail: &str) -> (r: Self)
        ensures
            r@ == found(name@, Status::Warn, detail@),
    {
        Finding { name: name.to_owned(), status: Status::Warn, detail: Some(detail.to_owned()) }
    }

    pub fn fail(name: &str, detail: &str) -> (r: Self)
        ensures
            r@ == found(name@, Status::Fail, detail@),
    {
        Finding { name: name.to_owned(), status: Status::Fail, detail: Some(detail.to_owned()) }
    }
}

/// The line a finding is reported on.
pub fn report_line(finding: &Finding) -> (r: String)
    ensures
        r@ == "  "@ + padded(finding@.name + ":"@, 24) + " "@ + finding@.status.written(),
{
    let mut name = finding.name.clone();
    name.append(":");
    let mut s = "  ".to_owned();
    s.append(pad(name.as_str(), 24).as_str());
    s.append(" ");
    s.append(finding.status.label());
    s
}

/// Whether a finding among these means that nothing will work.
pub fn report(findings: &Vec<Finding>) -> (r: bool)
    ensures
        r == exists|i: int|
            0 <= i < findings.deep_view().len() && (#[trigger] findings.deep_view()[i]).status is Fail,
{
    let ghost all = findings.deep_view();
    let mut i: usize = 0;
    while i < findings.len()
        invariant
            i <= findings.len(),
            all == findings.deep_view(),
            forall|j: int| 0 <= j < i ==> !((#[trigger] all[j]).status is Fail),
        decreases findings.len() - i,
    {
        assert(all[i as int] == findings@[i as int]@);
        if findings[i].status == Status::Fail {
            return true;
        }
        i += 1;
    }
    false
}

/// How an answer to a question is shown.
pub fn tick(ok: bool) -> (r: &'static str)
    ensures
        r@ == (if ok {
            "yes"@
        } else {
            "NO"@
        }),
{
    if ok {
        "yes"
    } else {
        "NO"
    }
}

// --------------------------------------------------------------------------- terminal

/// What a terminal of a size is good for.
pub open spec fn size_finding(size: Result<(u16, u16), Seq<char>>) -> FindingModel {
    match size {
        Ok((w, h)) => {
            let measure = decimal(w as nat) + "x"@ + decimal(h as nat);
            if w >= 60 && h >= 16 {
                found("size"@, Status::Good, measure)
            } else {
                found(
                    "size"@,
                    Status::Warn,
                    measure + "; panes need roughly 60x16 before splitting is useful"@,
                )
            }
        },
        Err(e) => found("size"@, Status::Warn, "cannot be read: "@ + e),
    }
}

/// What is assumed about the terminal, and how it is. `colour` is what it advertises, and
/// `glyphs` what measuring it found, where it could be measured.
pub open spec fn terminal_findings(
    is_tty: bool,
    term: Option<Seq<char>>,
    colour: Seq<char>,
    size: Result<(u16, u16), Seq<char>>,
) -> Seq<FindingModel> {
    seq![
        if is_tty {
            found("terminal"@, Status::Good, "stdout is a terminal"@)
        } else {
            found(
                "terminal"@,
                Status::Warn,
                "stdout is not a terminal; only the homeserver checks are meaningful"@,
            )
        },
        found(
            "TERM"@,
            Status::Good,
            match term {
                Some(term) => term,
                None => "unset"@,
            },
        ),
        if has_text(colour, "truecolor"@) || has_text(colour, "24bit"@) {
            found("colour"@, Status::Good, "24-bit"@)
        } else {
            found(
                "colour"@,
                Status::Warn,
                "COLORTERM does not advertise truecolor; themes fall back to the 256-colour cube"@,
            )
        },
        size_finding(size),
    ]
}

/// What was read, as its content.
pub open spec fn read_of<T>(r: Result<T, String>) -> Result<T, Seq<char>> {
    match r {
        Ok(v) => Ok(v),
        Err(e) => Err(e@),
    }
}

fn measure_size(size: &Result<(u16, u16), String>) -> (r: Finding)
    ensures
        r@ == size_finding(read_of(*size)),
{
    match size {
        Ok((w, h)) => {
            let mut measure = decimal_text(*w as u64);
            measure.append("x");
            measure.append(decimal_text(*h as u64).as_str());
            if *w >= 60 && *h >= 16 {
                Finding::ok("size", measure.as_str())
            } else {
                measure.append("; panes need roughly 60x16 before splitting is useful");
                Finding::warn("size", measure.as_str())
            }
        },
        Err(e) => {
            let mut text = "cannot be read: ".to_owned();
            text.append(e.as_str());
            Finding::warn("size", text.as_str())
        },
    }
}

/// What is assumed about the terminal, and how it is.
pub fn terminal(is_tty: bool, term: Option<&str>, colour: &str, size: &Result<(u16, u16), String>) -> (r: Vec<Finding>)
    ensures
        r.deep_view() == terminal_findings(
            is_tty,
            match term {
                Some(term) => Some(term@),
                None => None,
            },
            colour@,
            read_of(*size),
        ),
{
    let first = if is_tty {
        Finding::ok("terminal", "stdout is a terminal")
    } else {
        Finding::warn("terminal", "stdout is not a terminal; only the homeserver checks are meaningful")
    };
    let second = Finding::ok(
        "TERM",
        match term {
            Some(term) => term,
            None => "unset",
        },
    );
    let advertised = chars_of(colour);
    let third = if contains(&advertised, &chars_of("truecolor")) || contains(&advertised, &chars_of("24bit")) {
        Finding::ok("colour", "24-bit")
    } else {
        Finding::warn("colour", "COLORTERM does not advertise truecolor; themes fall back to the 256-colour cube")
    };
    let fourth = measure_size(size);
    let mut out: Vec<Finding> = Vec::new();
    out.push(first);
    out.push(second);
    out.push(third);
    out.push(fourth);
    assert(out.deep_view() =~= terminal_findings(
        is_tty,
        match term {
            Some(term) => Some(term@),
            None => None,
        },
        colour@,
        read_of(*size),
    ));
    out
}

/// What is said of a glyph that is painted at another width than it is laid out at.
pub open spec fn disagreement(p: Probe, actual: usize) -> Seq<char> {
    p.glyph@ + " ("@ + p.what@ + "): heddle lays out "@ + decimal(p.expected as nat) + ", this terminal paints "@
        + decimal(actual as nat)
}

/// What is said of the glyphs that are painted at another width than they are laid out at.
pub open spec fn disagreements(probes: Seq<Probe>) -> Seq<Seq<char>>
    decreases probes.len(),
{
    if probes.len() == 0 {
        Seq::empty()
    } else {
        let rest = disagreements(probes.drop_last());
        match probes.last().measured {
            Ok(actual) => if actual == probes.last().expected {
                rest
            } else {
                rest.push(disagreement(probes.last(), actual))
            },
            Err(_) => rest,
        }
    }
}

/// Whether the first glyph that could not be measured is this one.
pub open spec fn first_failure(probes: Seq<Probe>, i: int) -> bool {
    &&& 0 <= i < probes.len()
    &&& probes[i].measured is Err
    &&& forall|j: int| 0 <= j < i ==> (#[trigger] probes[j]).measured is Ok
}

/// What measuring the glyphs came to. A glyph that cannot be measured ends it.
pub open spec fn widths_found(probes: Seq<Probe>, r: FindingModel) -> bool {
    if exists|i: int| first_failure(probes, i) {
        exists|i: int| #[trigger]
            first_failure(probes, i) && r == found(
                "glyph widths"@,
                Status::Warn,
                "could not be measured: "@ + probes[i].measured->Err_0@,
            )
    } else if disagreements(probes).len() == 0 {
        r == found(
            "glyph widths"@,
            Status::Good,
            "the terminal paints every glyph heddle prints at the assumed width"@,
        )
    } else {
        r == found("glyph widths"@, Status::Warn, join(disagreements(probes), "; "@))
    }
}

fn disagree(p: &Probe, actual: usize) -> (r: String)
    ensures
        r@ == disagreement(*p, actual),
{
    let mut s = p.glyph.clone();
    s.append(" (");
    s.append(p.what.as_str());
    s.append("): heddle lays out ");
    s.append(decimal_text(p.expected as u64).as_str());
    s.append(", this terminal paints ");
    s.append(decimal_text(actual as u64).as_str());
    s
}

fn join_text(parts: &Vec<String>, sep: &str) -> (r: String)
    ensures
        r@ == join(parts.deep_view(), sep@),
{
    let ghost all = parts.deep_view();
    if parts.len() == 0 {
        let none = String::new();
        assert(none@ =~= Seq::<char>::empty());
        return none;
    }
    let mut out = parts[0].clone();
    let mut i: usize = 1;
    assert(all.take(1)[0] == all[0]);
    while i < parts.len()
        invariant
            1 <= i <= parts.len(),
            all == parts.deep_view(),
            out@ == join(all.take(i as int), sep@),
        decreases parts.len() - i,
    {
        proof {
            assert(all.take(i + 1).drop_last() =~= all.take(i as int));
            assert(all.take(i + 1).last() == parts@[i as int]@);
        }
        out.append(sep);
        out.append(parts[i].as_str());
        i += 1;
    }
    assert(all.take(all.len() as int) =~= all);
    out
}

/// Compare how wide the terminal paints the glyphs with how wide they are laid out.
///
/// The one measurement worth making by experiment rather than by table: where the two
/// disagree, every column to the right of the glyph is wrong.
pub fn glyph_widths(probes: &Vec<Probe>) -> (r: Finding)
    ensures
        widths_found(probes@, r@),
{
    let ghost all = probes@;
    let mut said: Vec<String> = Vec::new();
    let mut i: usize = 0;
    assert(said.deep_view() =~= disagreements(all.take(0)));
    while i < probes.len()
        invariant
            i <= probes.len(),
            all == probes@,
            said.deep_view() == disagreements(all.take(i as int)),
            forall|j: int| 0 <= j < i ==> (#[trigger] all[j]).measured is Ok,
        decreases probes.len() - i,
    {
        let ghost so_far = said.deep_view();
        proof {
            assert(all.take(i + 1).drop_last() =~= all.take(i as int));
            assert(all.take(i + 1).last() == all[i as int]);
        }
        match &probes[i].measured {
            Ok(actual) => {
                if *actual != probes[i].expected {
                    let text = disagree(&probes[i], *actual);
                    said.push(text);
                    assert(said.deep_view() =~= so_far.push(text@));
                }
            },
            Err(e) => {
                assert(first_failure(all, i as int));
                let mut text = "could not be measured: ".to_owned();
                text.append(e.as_str());
                return Finding::warn("glyph widths", text.as_str());
            },
        }
        i += 1;
    }
    assert(all.take(all.len() as int) =~= all);
    assert(forall|i: int| !first_failure(all, i));
    if said.len() == 0 {
        Finding::ok("glyph widths", "the terminal paints every glyph heddle prints at the assumed width")
    } else {
        Finding::warn("glyph widths", join_text(&said, "; ").as_str())
    }
}

// ------------------------------------------------------------------------------ store

/// The octal digits of a number.
pub open spec fn octal(n: nat) -> Seq<char>
    decreases n,
{
    if n < 8 {
        seq![digit(n as int)]
    } else {
        octal(n / 8).push(digit((n % 8) as int))
    }
}

/// The octal digits of a number, four of them at least.
pub open spec fn octal_mode(n: nat) -> Seq<char> {
    let digits = octal(n);
    Seq::new((if digits.len() < 4 { 4 - digits.len() } else { 0 }) as nat, |i: int| '0') + digits
}

fn octal_digit(d: u32) -> (r: char)
    requires
        d < 8,
    ensures
        r == digit(d as int),
{
    if d == 0 {
        '0'
    } else if d == 1 {
        '1'
    } else if d == 2 {
        '2'
    } else if d == 3 {
        '3'
    } else if d == 4 {
        '4'
    } else if d == 5 {
        '5'
    } else if d == 6 {
        '6'
    } else {
        '7'
    }
}

fn octal_text(n: u32) -> (r: String)
    ensures
        r@ == octal(n as nat),
    decreases n,
{
    if n < 8 {
        let mut s = String::new();
        s.push(octal_digit(n));
        assert(s@ =~= octal(n as nat));
        s
    } else {
        let mut s = octal_text(n / 8);
        s.push(octal_digit(n % 8));
        s
    }
}

fn mode_text(n: u32) -> (r: String)
    ensures
        r@ == octal_mode(n as nat),
{
    let digits = octal_text(n);
    let len = digits.as_str().unicode_len();
    let mut s = String::new();
    let mut i: usize = len;
    assert(s@ =~= Seq::new(0, |i: int| '0'));
    while i < 4
        invariant
            len <= i,
            i <= 4 || i == len,
            s@ == Seq::new((i - len) as nat, |i: int| '0'),
        decreases 4 - i,
    {
        s.push('0');
        i += 1;
        assert(s@ =~= Seq::new((i - len) as nat, |i: int| '0'));
    }
    s.append(digits.as_str());
    assert(s@ =~= octal_mode(n as nat));
    s
}

/// Whether permissions allow nothing beyond some others, bit by bit.
pub open spec fn no_more_than(mode: u32, most: u32) -> bool {
    mode & 0o777 & !most == 0
}

/// What the permissions of a path are, against the most they should be.
pub open spec fn permission_finding(
    what: Seq<char>,
    path: Seq<char>,
    mode: Option<Result<u32, String>>,
    most: u32,
) -> FindingModel {
    match mode {
        Some(Ok(mode)) => {
            let kept = mode & 0o777;
            if no_more_than(mode, most) {
                found(what, Status::Good, octal_mode(kept as nat))
            } else {
                found(
                    what,
                    Status::Warn,
                    octal_mode(kept as nat) + " is more permissive than "@ + octal_mode(most as nat) + ": chmod "@
                        + octal(most as nat) + " "@ + path,
                )
            }
        },
        Some(Err(e)) => found(what, Status::Warn, "cannot be read: "@ + e@),
        None => found(what, Status::Good, "not checked on this platform"@),
    }
}

/// Check that a path is no more permissive than `most`.
///
/// The store holds the access token and every key this device has ever seen, so that it is
/// readable by others is a real leak.
pub fn permissions(what: &str, path: &str, mode: &Option<Result<u32, String>>, most: u32) -> (r: Finding)
    ensures
        r@ == permission_finding(what@, path@, *mode, most),
{
    match mode {
        Some(Ok(mode)) => {
            let kept = *mode & 0o777;
            if kept & !most == 0 {
                Finding::ok(what, mode_text(kept).as_str())
            } else {
                let mut text = mode_text(kept);
                text.append(" is more permissive than ");
                text.append(mode_text(most).as_str());
                text.append(": chmod ");
                text.append(octal_text(most).as_str());
                text.append(" ");
                text.append(path);
                Finding::warn(what, text.as_str())
            }
        },
        Some(Err(e)) => {
            let mut text = "cannot be read: ".to_owned();
            text.append(e.as_str());
            Finding::warn(what, text.as_str())
        },
        None => Finding::ok(what, "not checked on this platform"),
    }
}

/// The device that a session belongs to.
pub open spec fn device_in(session: JsonModel) -> Option<Seq<char>> {
    match session.member("device_id"@) {
        Some(id) => id.as_text(),
        None => match session.member("tokens"@) {
            Some(tokens) => match tokens.member("device_id"@) {
                Some(id) => id.as_text(),
                None => None,
            },
            None => None,
        },
    }
}

/// What a session file is good for. The device is what every other device's verification of
/// this one is pinned to.
pub open spec fn session_finding(session: Result<Seq<char>, Seq<char>>) -> FindingModel {
    match session {
        Ok(text) => match parsed_json(text) {
            Ok(value) => match device_in(value) {
                Some(id) => found("session"@, Status::Good, "device "@ + id),
                None => found("session"@, Status::Warn, "parses, but carries no device ID"@),
            },
            Err(e) => found("session"@, Status::Fail, "will not parse: "@ + e),
        },
        Err(e) => found("session"@, Status::Fail, "cannot be read: "@ + e),
    }
}

fn text_in(value: Option<&Json>) -> (r: Option<String>)
    ensures
        r.deep_view() == (match value {
            Some(j) => content(*j).as_text(),
            None => None,
        }),
{
    match value {
        Some(Json::Text(s)) => Some(s.clone()),
        _ => None,
    }
}

/// The device that a session belongs to.
pub fn device_of(session: &Json) -> (r: Option<String>)
    ensures
        r.deep_view() == device_in(content(*session)),
{
    proof {
        lemma_member(*session, "device_id"@);
        lemma_member(*session, "tokens"@);
    }
    match session.get("device_id") {
        Some(id) => text_in(Some(id)),
        None => match session.get("tokens") {
            Some(tokens) => {
                proof {
                    lemma_member(*tokens, "device_id"@);
                }
                text_in(tokens.get("device_id"))
            },
            None => None,
        },
    }
}

fn read_session(session: &Result<String, String>) -> (r: Finding)
    ensures
        r@ == session_finding(
            match *session {
                Ok(text) => Ok(text@),
                Err(e) => Err(e@),
            },
        ),
{
    match session {
        Ok(text) => match read(text.as_str()) {
            Ok(value) => match device_of(&value) {
                Some(id) => {
                    let mut s = "device ".to_owned();
                    s.append(id.as_str());
                    Finding::ok("session", s.as_str())
                },
                None => Finding::warn("session", "parses, but carries no device ID"),
            },
            Err(e) => {
                let mut s = "will not parse: ".to_owned();
                s.append(e.as_str());
                Finding::fail("session", s.as_str())
            },
        },
        Err(e) => {
            let mut s = "cannot be read: ".to_owned();
            s.append(e.as_str());
            Finding::fail("session", s.as_str())
        },
    }
}

/// What a store directory with so many files is good for.
pub open spec fn files_finding(store_dir: Seq<char>, files: Result<usize, Seq<char>>) -> FindingModel {
    match files {
        Ok(n) => if n > 0 {
            found("store"@, Status::Good, decimal(n as nat) + " files in "@ + store_dir)
        } else {
            found(
                "store"@,
                Status::Warn,
                "the store directory is empty; encrypted history will not open until the keys are recovered"@,
            )
        },
        Err(e) => found("store"@, Status::Fail, "cannot be read: "@ + e),
    }
}

fn count_files(store_dir: &str, files: &Result<usize, String>) -> (r: Finding)
    ensures
        r@ == files_finding(store_dir@, read_of(*files)),
{
    match files {
        Ok(n) => {
            if *n > 0 {
                let mut s = decimal_text(*n as u64);
                s.append(" files in ");
                s.append(store_dir);
                Finding::ok("store", s.as_str())
            } else {
                // The store was deleted underneath a live login.
                Finding::warn(
                    "store",
                    "the store directory is empty; encrypted history will not open until the keys are recovered",
                )
            }
        },
        Err(e) => {
            let mut s = "cannot be read: ".to_owned();
            s.append(e.as_str());
            Finding::fail("store", s.as_str())
        },
    }
}

/// What is assumed about the local store, and how it is. `facts` are none where there is no
/// session.
pub open spec fn store_findings(
    profile: Seq<char>,
    store_dir: Seq<char>,
    session_file: Seq<char>,
    facts: Option<StoreFacts>,
) -> Seq<FindingModel> {
    match facts {
        Some(facts) => seq![
            session_finding(
                match facts.session {
                    Ok(text) => Ok(text@),
                    Err(e) => Err(e@),
                },
            ),
            permission_finding("session file"@, session_file, facts.session_mode, 0o600),
            permission_finding("store directory"@, store_dir, facts.store_mode, 0o700),
            files_finding(store_dir, read_of(facts.files)),
        ],
        None => seq![
            found(
                "session"@,
                Status::Fail,
                "no session for profile `"@ + profile + "` at "@ + session_file + "; run `heddle --profile "@ + profile
                    + " login`"@,
            ),
        ],
    }
}

/// What is assumed about the local store, and how it is.
pub fn store(profile: &str, store_dir: &str, session_file: &str, facts: Option<&StoreFacts>) -> (r: Vec<Finding>)
    ensures
        r.deep_view() == store_findings(
            profile@,
            store_dir@,
            session_file@,
            match facts {
                Some(facts) => Some(*facts),
                None => None,
            },
        ),
{
    let mut out: Vec<Finding> = Vec::new();
    match facts {
        Some(facts) => {
            out.push(read_session(&facts.session));
            out.push(permissions("session file", session_file, &facts.session_mode, 0o600));
            out.push(permissions("store directory", store_dir, &facts.store_mode, 0o700));
            out.push(count_files(store_dir, &facts.files));
            assert(out.deep_view() =~= store_findings(profile@, store_dir@, session_file@, Some(*facts)));
        },
        None => {
            let mut s = "no session for profile `".to_owned();
            s.append(profile);
            s.append("` at ");
            s.append(session_file);
            s.append("; run `heddle --profile ");
            s.append(profile);
            s.append(" login`");
            out.push(Finding::fail("session", s.as_str()));
            assert(out.deep_view() =~= store_findings(profile@, store_dir@, session_file@, None));
        },
    }
    out
}

} // verus!
