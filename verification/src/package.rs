//! The package fetcher: a reference names a remotely distributed package,
//! which is served from a write-once on-disk cache, downloaded with exactly
//! one retry on failure, decompressed, and unpacked atomically.
//!
//! The fetcher's decisions stand here as a step function from state and
//! event to next state and command; the caller performs each commanded
//! piece of outside work (probing the cache directory, the HTTP request,
//! unpacking, removing a partial directory) and feeds the outcome back.

use vstd::prelude::*;

verus! {

use vstd::string::StringExecFns;
use crate::PackageFailure;

/// A (namespace, name, version) triple naming a distributable package.
#[derive(Debug, Clone, PartialEq, Eq)]
pub struct PackageRef {
    pub namespace: String,
    pub name: String,
    pub major: u32,
    pub minor: u32,
    pub patch: u32,
}

/// The mathematical form of a [`PackageRef`].
pub struct PackageRefV {
    pub namespace: Seq<char>,
    pub name: Seq<char>,
    pub major: int,
    pub minor: int,
    pub patch: int,
}

impl View for PackageRef {
    type V = PackageRefV;

    open spec fn view(&self) -> PackageRefV {
        PackageRefV {
            namespace: self.namespace@,
            name: self.name@,
            major: self.major as int,
            minor: self.minor as int,
            patch: self.patch as int,
        }
    }
}

impl PackageRef {
    /// An equal copy of the reference.
    pub fn duplicate(&self) -> (r: PackageRef)
        ensures
            r@ == self@,
    {
        PackageRef {
            namespace: self.namespace.clone(),
            name: self.name.clone(),
            major: self.major,
            minor: self.minor,
            patch: self.patch,
        }
    }

    /// Whether two references name the same package.
    pub fn ref_eq(&self, other: &PackageRef) -> (r: bool)
        ensures
            r == (self@ == other@),
    {
        self.namespace == other.namespace && self.name == other.name && self.major
            == other.major && self.minor == other.minor && self.patch == other.patch
    }
}

/// The character for one decimal digit.
pub open spec fn digit_char(d: int) -> char {
    if d == 0 {
        '0'
    } else if d == 1 {
        '1'
    } else if d == 2 {
        '2'
    } else if d == 3 {
        '3'
    } else if d == 4 {
        '4'
    } else if d == 5 {
        '5'
    } else if d == 6 {
        '6'
    } else if d == 7 {
        '7'
    } else if d == 8 {
        '8'
    } else {
        '9'
    }
}

/// The decimal notation of a nonnegative integer, without leading zeros.
pub open spec fn dec_str(n: int) -> Seq<char>
    recommends
        n >= 0,
    decreases n,
    when n >= 0
{
    if n < 10 {
        seq![digit_char(n)]
    } else {
        dec_str(n / 10).push(digit_char(n % 10))
    }
}

/// One decimal digit as text.
fn digit_str(d: u32) -> (r: &'static str)
    requires
        d < 10,
    ensures
        r@ =~= seq![digit_char(d as int)],
{
    proof {
        reveal_strlit("0");
        reveal_strlit("1");
        reveal_strlit("2");
        reveal_strlit("3");
        reveal_strlit("4");
        reveal_strlit("5");
        reveal_strlit("6");
        reveal_strlit("7");
        reveal_strlit("8");
        reveal_strlit("9");
    }
    match d {
        0 => "0",
        1 => "1",
        2 => "2",
        3 => "3",
        4 => "4",
        5 => "5",
        6 => "6",
        7 => "7",
        8 => "8",
        _ => "9",
    }
}

/// Formats a number in decimal notation.
pub fn fmt_u32(n: u32) -> (r: String)
    ensures
        r@ == dec_str(n as int),
    decreases n,
{
    if n < 10 {
        String::from_str(digit_str(n))
    } else {
        let mut s = fmt_u32(n / 10);
        s.append(digit_str(n % 10));
        s
    }
}

/// A package's version in dotted decimal notation.
pub open spec fn version_str(p: PackageRefV) -> Seq<char> {
    dec_str(p.major) + "."@ + dec_str(p.minor) + "."@ + dec_str(p.patch)
}

/// The registry address a package is downloaded from.
pub open spec fn url_spec(p: PackageRefV) -> Seq<char> {
    "https://packages.typst.org/"@ + p.namespace + "/"@ + p.name + "-"@ + version_str(p)
        + ".tar.gz"@
}

/// Builds the registry URL for a package.
pub fn registry_url(p: &PackageRef) -> (r: String)
    ensures
        r@ == url_spec(p@),
{
    let mut s = String::from_str("https://packages.typst.org/");
    s.append(p.namespace.as_str());
    s.append("/");
    s.append(p.name.as_str());
    s.append("-");
    let major = fmt_u32(p.major);
    s.append(major.as_str());
    s.append(".");
    let minor = fmt_u32(p.minor);
    s.append(minor.as_str());
    s.append(".");
    let patch = fmt_u32(p.patch);
    s.append(patch.as_str());
    s.append(".tar.gz");
    proof {
        assert(s@ =~= url_spec(p@));
    }
    s
}

/// The path of a package's cache directory below the cache root, one
/// segment per component: namespace, name, dotted version.
pub fn cache_segments(p: &PackageRef) -> (r: Vec<String>)
    ensures
        r@.len() == 3,
        r@[0]@ == p@.namespace,
        r@[1]@ == p@.name,
        r@[2]@ == version_str(p@),
{
    let mut v: Vec<String> = Vec::new();
    v.push(p.namespace.clone());
    v.push(p.name.clone());
    let mut ver = fmt_u32(p.major);
    ver.append(".");
    let minor = fmt_u32(p.minor);
    ver.append(minor.as_str());
    ver.append(".");
    let patch = fmt_u32(p.patch);
    ver.append(patch.as_str());
    proof {
        assert(ver@ =~= version_str(p@));
    }
    v.push(ver);
    v
}

/// Whether an HTTP status code reports success.
pub fn http_successful(status: u16) -> (r: bool)
    ensures
        r == (200 <= status < 300),
{
    status / 100 == 2
}

/// Calls the operation; on failure, retries it exactly once and returns
/// the second outcome, whatever it is.
pub fn retry<T, E, F: Fn() -> Result<T, E>>(f: F) -> (r: Result<T, E>)
    requires
        call_requires(f, ()),
    ensures
        call_ensures(f, (), r),
{
    match f() {
        Ok(ok) => Ok(ok),
        Err(_) => f(),
    }
}

/// What gzip decompression yields for the given bytes, when they form a
/// well-formed gzip stream.
pub uninterp spec fn gunzip(data: Seq<u8>) -> Option<Seq<u8>>;

/// Where a fetch stands.
#[derive(Debug, PartialEq, Eq)]
pub enum FetchState {
    /// Waiting to learn whether the package's cache directory exists.
    Probing,
    /// Waiting for the outcome of a download attempt (1 or 2).
    Downloading { attempt: u8 },
    /// Waiting for the outcome of unpacking the decompressed archive.
    Unpacking,
    /// The package's cache directory is ready.
    Done,
    /// The fetch failed.
    Failed(PackageFailure),
}

/// What the caller learned from the last commanded piece of outside work.
#[derive(Debug, PartialEq, Eq)]
pub enum FetchEvent {
    /// Whether the package's cache directory exists.
    Probed(bool),
    /// The HTTP response status and body, or a transport error.
    Downloaded(Result<(u16, Vec<u8>), String>),
    /// The outcome of unpacking into the cache directory.
    Unpacked(Result<(), String>),
}

/// What the caller must do next.
#[derive(Debug, PartialEq, Eq)]
pub enum FetchCommand {
    /// Check whether the package's cache directory exists.
    Probe,
    /// Issue an HTTP GET for the package's registry URL.
    Download,
    /// Unpack this tar archive into the package's cache directory.
    Unpack(Vec<u8>),
    /// Remove the package's partial cache directory.
    RemoveDir,
    /// Nothing: the fetch is done or failed.
    Halt,
}

/// The mathematical form of a [`PackageFailure`].
pub enum FailureV {
    NetworkFailed(Seq<char>),
    MalformedArchive(Seq<char>),
}

impl View for PackageFailure {
    type V = FailureV;

    open spec fn view(&self) -> FailureV {
        match self {
            PackageFailure::NetworkFailed(m) => FailureV::NetworkFailed(m@),
            PackageFailure::MalformedArchive(m) => FailureV::MalformedArchive(m@),
        }
    }
}

/// The mathematical form of a [`FetchState`].
pub enum FetchStateV {
    Probing,
    Downloading { attempt: int },
    Unpacking,
    Done,
    Failed(FailureV),
}

impl View for FetchState {
    type V = FetchStateV;

    open spec fn view(&self) -> FetchStateV {
        match self {
            FetchState::Probing => FetchStateV::Probing,
            FetchState::Downloading { attempt } => FetchStateV::Downloading {
                attempt: *attempt as int,
            },
            FetchState::Unpacking => FetchStateV::Unpacking,
            FetchState::Done => FetchStateV::Done,
            FetchState::Failed(f) => FetchStateV::Failed(f@),
        }
    }
}

/// The mathematical form of a [`FetchEvent`].
pub enum FetchEventV {
    Probed(bool),
    Downloaded(Result<(u16, Seq<u8>), Seq<char>>),
    Unpacked(Result<(), Seq<char>>),
}

impl View for FetchEvent {
    type V = FetchEventV;

    open spec fn view(&self) -> FetchEventV {
        match self {
            FetchEvent::Probed(e) => FetchEventV::Probed(*e),
            FetchEvent::Downloaded(r) => FetchEventV::Downloaded(
                match r {
                    Ok((status, body)) => Ok((*status, body@)),
                    Err(m) => Err(m@),
                },
            ),
            FetchEvent::Unpacked(r) => FetchEventV::Unpacked(
                match r {
                    Ok(u) => Ok(*u),
                    Err(m) => Err(m@),
                },
            ),
        }
    }
}

/// The mathematical form of a [`FetchCommand`].
pub enum FetchCommandV {
    Probe,
    Download,
    Unpack(Seq<u8>),
    RemoveDir,
    Halt,
}

impl View for FetchCommand {
    type V = FetchCommandV;

    open spec fn view(&self) -> FetchCommandV {
        match self {
            FetchCommand::Probe => FetchCommandV::Probe,
            FetchCommand::Download => FetchCommandV::Download,
            FetchCommand::Unpack(v) => FetchCommandV::Unpack(v@),
            FetchCommand::RemoveDir => FetchCommandV::RemoveDir,
            FetchCommand::Halt => FetchCommandV::Halt,
        }
    }
}

/// Which event answers which state's command.
pub open spec fn event_fits(s: FetchStateV, e: FetchEventV) -> bool {
    match s {
        FetchStateV::Probing => e is Probed,
        FetchStateV::Downloading { attempt } => e is Downloaded,
        FetchStateV::Unpacking => e is Unpacked,
        FetchStateV::Done => false,
        FetchStateV::Failed(_) => false,
    }
}

/// A download attempt's outcome counts as failed when the transport
/// failed or the status code is outside the 2xx range.
pub open spec fn download_failed(e: FetchEventV) -> bool {
    e matches FetchEventV::Downloaded(r) && match r {
        Ok((status, _)) => !(200 <= status < 300),
        Err(_) => true,
    }
}

/// The message reported for an unsuccessful HTTP status code.
pub open spec fn status_message(status: int) -> Seq<char> {
    "response returned unsuccessful status code "@ + dec_str(status)
}

/// What a download failure reports: the transport error, or the status.
pub open spec fn failure_message(r: Result<(u16, Seq<u8>), Seq<char>>) -> Seq<char> {
    match r {
        Ok((status, _)) => status_message(status as int),
        Err(m) => m,
    }
}

/// One step of the fetch: what the state becomes on an event, and what
/// the caller must do next.
pub open spec fn fetch_step_spec(s: FetchStateV, e: FetchEventV) -> (FetchStateV, FetchCommandV) {
    match (s, e) {
        (FetchStateV::Probing, FetchEventV::Probed(exists_already)) => {
            if exists_already {
                (FetchStateV::Done, FetchCommandV::Halt)
            } else {
                (FetchStateV::Downloading { attempt: 1 }, FetchCommandV::Download)
            }
        },
        (FetchStateV::Downloading { attempt }, FetchEventV::Downloaded(r)) => {
            match r {
                Ok((status, body)) => {
                    if !(200 <= status < 300) {
                        if attempt == 1 {
                            (FetchStateV::Downloading { attempt: 2 }, FetchCommandV::Download)
                        } else {
                            (
                                FetchStateV::Failed(
                                    FailureV::NetworkFailed(status_message(status as int)),
                                ),
                                FetchCommandV::Halt,
                            )
                        }
                    } else {
                        match gunzip(body) {
                            Some(raw) => (FetchStateV::Unpacking, FetchCommandV::Unpack(raw)),
                            None => (
                                FetchStateV::Failed(FailureV::MalformedArchive(gunzip_error(body))),
                                FetchCommandV::Halt,
                            ),
                        }
                    }
                },
                Err(m) => {
                    if attempt == 1 {
                        (FetchStateV::Downloading { attempt: 2 }, FetchCommandV::Download)
                    } else {
                        (
                            FetchStateV::Failed(FailureV::NetworkFailed(m)),
                            FetchCommandV::Halt,
                        )
                    }
                },
            }
        },
        (FetchStateV::Unpacking, FetchEventV::Unpacked(r)) => {
            match r {
                Ok(_) => (FetchStateV::Done, FetchCommandV::Halt),
                Err(m) => (
                    FetchStateV::Failed(FailureV::MalformedArchive(m)),
                    FetchCommandV::RemoveDir,
                ),
            }
        },
        _ => (s, FetchCommandV::Halt),
    }
}

/// The message gzip decompression reports for a malformed stream.
pub uninterp spec fn gunzip_error(data: Seq<u8>) -> Seq<char>;

/// Relies on zune_inflate's `DeflateDecoder::decode_gzip`: its error, like
/// its result, depends on the input bytes alone.
#[verifier::external_body]
fn gunzip_bytes(data: &Vec<u8>) -> (r: Result<Vec<u8>, String>)
    ensures
        r matches Ok(v) ==> gunzip(data@) == Some(v@),
        r is Err ==> gunzip(data@) is None,
        r matches Err(m) ==> m@ == gunzip_error(data@),
{
    match zune_inflate::DeflateDecoder::new(data.as_slice()).decode_gzip() {
        Ok(v) => Ok(v),
        Err(e) => Err(format!("{:?}", e.error)),
    }
}

/// Where every fetch begins: probe the cache directory.
pub fn fetch_start() -> (r: (FetchState, FetchCommand))
    ensures
        r.0@ == FetchStateV::Probing,
        r.1@ == FetchCommandV::Probe,
{
    (FetchState::Probing, FetchCommand::Probe)
}

/// Performs one step of the fetch.
pub fn fetch_step(s: FetchState, e: FetchEvent) -> (r: (FetchState, FetchCommand))
    requires
        event_fits(s@, e@),
    ensures
        (r.0@, r.1@) == fetch_step_spec(s@, e@),
{
    match (s, e) {
        (FetchState::Probing, FetchEvent::Probed(exists_already)) => {
            if exists_already {
                (FetchState::Done, FetchCommand::Halt)
            } else {
                (FetchState::Downloading { attempt: 1 }, FetchCommand::Download)
            }
        },
        (FetchState::Downloading { attempt }, FetchEvent::Downloaded(r)) => {
            match r {
                Ok((status, body)) => {
                    if !http_successful(status) {
                        if attempt == 1 {
                            (FetchState::Downloading { attempt: 2 }, FetchCommand::Download)
                        } else {
                            let mut m = String::from_str(
                                "response returned unsuccessful status code ",
                            );
                            let st = fmt_u32(status as u32);
                            m.append(st.as_str());
                            (
                                FetchState::Failed(PackageFailure::NetworkFailed(m)),
                                FetchCommand::Halt,
                            )
                        }
                    } else {
                        match gunzip_bytes(&body) {
                            Ok(raw) => (FetchState::Unpacking, FetchCommand::Unpack(raw)),
                            Err(m) => (
                                FetchState::Failed(PackageFailure::MalformedArchive(m)),
                                FetchCommand::Halt,
                            ),
                        }
                    }
                },
                Err(m) => {
                    if attempt == 1 {
                        (FetchState::Downloading { attempt: 2 }, FetchCommand::Download)
                    } else {
                        (
                            FetchState::Failed(PackageFailure::NetworkFailed(m)),
                            FetchCommand::Halt,
                        )
                    }
                },
            }
        },
        (FetchState::Unpacking, FetchEvent::Unpacked(r)) => {
            match r {
                Ok(_) => (FetchState::Done, FetchCommand::Halt),
                Err(m) => (
                    FetchState::Failed(PackageFailure::MalformedArchive(m)),
                    FetchCommand::RemoveDir,
                ),
            }
        },
        (s2, _) => (s2, FetchCommand::Halt),
    }
}

/// Law: a package whose cache directory already exists is served from it
/// at once; the fetch ends without ever commanding a download, and no
/// further step follows a finished fetch.
pub proof fn lemma_write_once_cache()
    ensures
        fetch_step_spec(FetchStateV::Probing, FetchEventV::Probed(true)) == (
            FetchStateV::Done,
            FetchCommandV::Halt,
        ),
        forall|e: FetchEventV| !event_fits(FetchStateV::Done, e),
{
}

/// Law: a failed first attempt is retried exactly once; a failed second
/// attempt surfaces as a network failure and commands nothing further.
pub proof fn lemma_retry_bound(e1: FetchEventV, e2: FetchEventV)
    requires
        download_failed(e1),
        download_failed(e2),
    ensures
        fetch_step_spec(FetchStateV::Downloading { attempt: 1 }, e1) == (
            FetchStateV::Downloading { attempt: 2 },
            FetchCommandV::Download,
        ),
        fetch_step_spec(
            fetch_step_spec(FetchStateV::Downloading { attempt: 1 }, e1).0,
            e2,
        ).0 matches FetchStateV::Failed(f) && f is NetworkFailed,
        fetch_step_spec(
            fetch_step_spec(FetchStateV::Downloading { attempt: 1 }, e1).0,
            e2,
        ).1 is Halt,
{
}

/// Law: the attempt counter never leaves {1, 2}: there is no third attempt.
pub proof fn lemma_no_third_attempt(s: FetchStateV, e: FetchEventV)
    requires
        s matches FetchStateV::Downloading { attempt } ==> 1 <= attempt <= 2,
    ensures
        fetch_step_spec(s, e).0 matches FetchStateV::Downloading { attempt } ==> 1 <= attempt
            <= 2,
        fetch_step_spec(s, e).1 is Download ==> fetch_step_spec(s, e).0 is Downloading,
{
}

/// Law: a failed unpack reports a malformed archive and commands the
/// removal of the partial cache directory; a fresh fetch of the same
/// package then finds no directory and performs the full download again.
pub proof fn lemma_unpack_atomic(m: Seq<char>)
    ensures
        fetch_step_spec(FetchStateV::Unpacking, FetchEventV::Unpacked(Err(m))) == (
            FetchStateV::Failed(FailureV::MalformedArchive(m)),
            FetchCommandV::RemoveDir,
        ),
        fetch_step_spec(FetchStateV::Probing, FetchEventV::Probed(false)) == (
            FetchStateV::Downloading { attempt: 1 },
            FetchCommandV::Download,
        ),
{
}

} // verus!
