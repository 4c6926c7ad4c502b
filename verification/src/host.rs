//! The compilation host: it owns the detached main source, the input-scope
//! snapshot built once at construction, the font catalog, and the virtual
//! file table, and answers the resolution queries a document compiler
//! makes: main source, file bytes, file text, fonts, and the current date.

use vstd::prelude::*;

verus! {

use vstd::string::StringExecFns;
use crate::files::{FileKey, FileKeyV, FileEntryV, FileTable, assoc_lookup, store_model,
    memo_model, lookup_bytes};
use crate::fonts::FontCatalog;
use crate::package::{PackageRef, PackageRefV};
use crate::text::strip_boms;
use crate::value::{HostTerm, DictEntry, convert, convert_spec, value_view};
use crate::vpath::{normalize_spec, segs_view, resolve_segments};
use crate::FileFailure;
use vstd::utf8::{valid_utf8, decode_utf8};

/// What a caller hands the host at construction.
#[derive(Debug, PartialEq, Eq)]
pub struct ImprintorConfig {
    /// The main document's source text.
    pub source_document: String,
    /// Extra font files or directories to search besides the system's.
    pub extra_fonts: Option<Vec<String>>,
    /// A dynamic host-language value exposed to the document as input.
    pub data: Option<HostTerm>,
    /// The directory that local virtual paths resolve below.
    pub root_directory: String,
}

/// Identifies a document input: the detached main source, or a file.
#[derive(Debug, PartialEq, Eq)]
pub enum DocId {
    /// The detached main source; it has no backing virtual path.
    Main,
    /// A file reached through the virtual file table.
    File(FileKey),
}

/// The mathematical form of a [`DocId`].
pub enum DocIdV {
    Main,
    File(FileKeyV),
}

impl View for DocId {
    type V = DocIdV;

    open spec fn view(&self) -> DocIdV {
        match self {
            DocId::Main => DocIdV::Main,
            DocId::File(k) => DocIdV::File(k@),
        }
    }
}

/// How a file query is to be satisfied.
#[derive(Debug, PartialEq, Eq)]
pub enum Plan {
    /// Serve the detached main source directly, never through the table.
    UseMain,
    /// The table already holds the file's bytes.
    Cached,
    /// Read the file below the root directory, at these normalized
    /// segments, then store the bytes.
    ReadLocal(Vec<String>),
    /// Fetch this package, read the file below its cache directory at
    /// these normalized segments, then store the bytes.
    FetchPackage(PackageRef, Vec<String>),
    /// The virtual path escapes the permitted root.
    Denied,
}

/// The mathematical form of a [`Plan`].
pub enum PlanV {
    UseMain,
    Cached,
    ReadLocal(Seq<Seq<char>>),
    FetchPackage(PackageRefV, Seq<Seq<char>>),
    Denied,
}

impl View for Plan {
    type V = PlanV;

    open spec fn view(&self) -> PlanV {
        match self {
            Plan::UseMain => PlanV::UseMain,
            Plan::Cached => PlanV::Cached,
            Plan::ReadLocal(segs) => PlanV::ReadLocal(segs_view(segs@)),
            Plan::FetchPackage(p, segs) => PlanV::FetchPackage(p@, segs_view(segs@)),
            Plan::Denied => PlanV::Denied,
        }
    }
}

/// How a file key is satisfied against a table: cached bytes win; a miss
/// resolves the virtual path (refusing escapes) against the package's
/// directory or the local root.
pub open spec fn plan_spec(t: Seq<(FileKeyV, FileEntryV)>, k: FileKeyV) -> PlanV {
    if assoc_lookup(t, k) is Some {
        PlanV::Cached
    } else {
        match normalize_spec(k.segments) {
            None => PlanV::Denied,
            Some(segs) => match k.package {
                Some(p) => PlanV::FetchPackage(p, segs),
                None => PlanV::ReadLocal(segs),
            },
        }
    }
}

/// The fixed input-scope key under which the bridged data value stands.
pub open spec fn data_key() -> Seq<char> {
    "elixir_data"@
}

/// The compilation host.
#[derive(Debug)]
pub struct Host {
    /// The detached main source text.
    pub source_text: String,
    /// The directory local virtual paths resolve below.
    pub root: String,
    /// The directory the package cache lives below.
    pub cache_dir: String,
    /// The input-scope snapshot, built once at construction.
    pub inputs: Vec<DictEntry>,
    /// The font catalog.
    pub fonts: FontCatalog,
    /// The virtual file table.
    pub table: FileTable,
    /// The construction-time timestamp, as seconds since the epoch.
    pub now_secs: i64,
}

impl Host {
    /// The host's invariant: every derived text in the table matches its
    /// bytes.
    pub open spec fn wf(&self) -> bool {
        self.table.wf()
    }

    /// Builds a host: the input-scope snapshot and the font catalog are
    /// built here, once; the file table starts empty.
    pub fn new(
        config: ImprintorConfig,
        font_paths: Vec<(String, u32)>,
        now_secs: i64,
        cache_dir: String,
    ) -> (r: Host)
        ensures
            r.wf(),
            r.source_text@ == config.source_document@,
            r.root@ == config.root_directory@,
            r.cache_dir@ == cache_dir@,
            r.now_secs == now_secs,
            r.table@ =~= Seq::<(FileKeyV, FileEntryV)>::empty(),
            r.fonts@.len() == font_paths@.len(),
            match config.data {
                Some(d) => r.inputs@.len() == 1 && r.inputs@[0].key@ == data_key()
                    && value_view(r.inputs@[0].value) == convert_spec(d@),
                None => r.inputs@.len() == 0,
            },
    {
        let mut inputs: Vec<DictEntry> = Vec::new();
        match &config.data {
            Some(d) => {
                let bridged = convert(d);
                inputs.push(DictEntry { key: String::from_str("elixir_data"), value: bridged });
            },
            None => {},
        }
        Host {
            source_text: config.source_document,
            root: config.root_directory,
            cache_dir,
            inputs,
            fonts: FontCatalog::from_paths(font_paths),
            table: FileTable::new(),
            now_secs,
        }
    }

    /// The detached main source text.
    pub fn main_source(&self) -> (r: String)
        ensures
            r@ == self.source_text@,
    {
        self.source_text.clone()
    }

    /// How to satisfy a query for a document input. The main source is
    /// always served directly; a file is served from the table or, on a
    /// miss, from the location the plan names.
    pub fn plan(&self, id: &DocId) -> (r: Plan)
        ensures
            id is Main ==> r is UseMain,
            id matches DocId::File(k) ==> r@ == plan_spec(self.table@, k@),
    {
        match id {
            DocId::Main => Plan::UseMain,
            DocId::File(k) => {
                if self.table.contains(k) {
                    Plan::Cached
                } else {
                    match resolve_segments(&k.segments) {
                        None => Plan::Denied,
                        Some(segs) => match &k.package {
                            Some(p) => Plan::FetchPackage(p.duplicate(), segs),
                            None => Plan::ReadLocal(segs),
                        },
                    }
                }
            },
        }
    }

    /// The bytes cached for a file.
    pub fn file_bytes(&self, key: &FileKey) -> (r: Option<Vec<u8>>)
        ensures
            r matches Some(b) ==> lookup_bytes(self.table@, key@) == Some(b@),
            r is None ==> lookup_bytes(self.table@, key@) is None,
    {
        self.table.bytes_of(key)
    }

    /// The text of a document input. The main source is returned
    /// directly; a file's text is derived from its cached bytes (UTF-8,
    /// byte-order-marks stripped) once and memoized. Nothing is returned
    /// for a file whose bytes are not cached yet.
    pub fn source_text_of(&mut self, id: &DocId) -> (r: Option<Result<String, FileFailure>>)
        requires
            old(self).wf(),
        ensures
            final(self).wf(),
            final(self).source_text == old(self).source_text,
            final(self).inputs == old(self).inputs,
            final(self).fonts == old(self).fonts,
            final(self).now_secs == old(self).now_secs,
            id is Main ==> (r matches Some(Ok(t)) && t@ == old(self).source_text@
                && final(self).table@ == old(self).table@),
            id matches DocId::File(k) ==> {
                &&& final(self).table@ == memo_model(old(self).table@, k@)
                &&& (r is None <==> assoc_lookup(old(self).table@, k@) is None)
                &&& (assoc_lookup(old(self).table@, k@) matches Some(e) ==> {
                    if valid_utf8(strip_boms(e.bytes)) {
                        r matches Some(Ok(t)) && t@ == decode_utf8(strip_boms(e.bytes))
                    } else {
                        r == Some(Err::<String, FileFailure>(FileFailure::InvalidUtf8))
                    }
                })
                &&& forall|k2: FileKeyV| lookup_bytes(final(self).table@, k2) == lookup_bytes(
                    old(self).table@,
                    k2,
                )
            },
    {
        match id {
            DocId::Main => Some(Ok(self.source_text.clone())),
            DocId::File(k) => self.table.source_of(k),
        }
    }
}

/// What reading a planned location yielded: the bytes, or a failure to
/// classify.
#[derive(Debug, PartialEq, Eq)]
pub enum ReadOutcome {
    /// The file's bytes were read.
    Data(Vec<u8>),
    /// No file was found at the location.
    Missing,
    /// The file may not be accessed.
    Forbidden,
    /// The package the file lives in could not be fetched.
    PackageFailed(crate::PackageFailure),
    /// Reading failed for another reason, described in the message.
    Failed(String),
}

impl Host {
    /// Stores the outcome of reading a planned location. Bytes are cached
    /// (write-once); each failure is classified into the host's error
    /// taxonomy and caches nothing, so the next query plans afresh.
    pub fn store_read(&mut self, key: FileKey, outcome: ReadOutcome) -> (r: Result<
        (),
        FileFailure,
    >)
        requires
            old(self).wf(),
        ensures
            final(self).wf(),
            final(self).source_text == old(self).source_text,
            final(self).inputs == old(self).inputs,
            final(self).fonts == old(self).fonts,
            final(self).now_secs == old(self).now_secs,
            match outcome {
                ReadOutcome::Data(bytes) => r == Ok::<(), FileFailure>(())
                    && final(self).table@ == store_model(old(self).table@, key@, bytes@),
                ReadOutcome::Missing => r == Err::<(), FileFailure>(FileFailure::NotFound)
                    && final(self).table@ == old(self).table@,
                ReadOutcome::Forbidden => r == Err::<(), FileFailure>(
                    FileFailure::AccessDenied,
                ) && final(self).table@ == old(self).table@,
                ReadOutcome::PackageFailed(f) => r == Err::<(), FileFailure>(
                    FileFailure::Package(f),
                ) && final(self).table@ == old(self).table@,
                ReadOutcome::Failed(m) => r == Err::<(), FileFailure>(FileFailure::Other(m))
                    && final(self).table@ == old(self).table@,
            },
    {
        match outcome {
            ReadOutcome::Data(bytes) => {
                self.table.store(key, bytes);
                Ok(())
            },
            ReadOutcome::Missing => Err(FileFailure::NotFound),
            ReadOutcome::Forbidden => Err(FileFailure::AccessDenied),
            ReadOutcome::PackageFailed(f) => Err(FileFailure::Package(f)),
            ReadOutcome::Failed(m) => Err(FileFailure::Other(m)),
        }
    }
}

/// The calendar date (year, month, day) of a timestamp shifted to a
/// whole-hour offset, when both lie in the calendar's supported range.
pub uninterp spec fn civil_date_of(secs: int, hours: int) -> Option<(int, int, int)>;

/// Relies on time's `OffsetDateTime::from_unix_timestamp`,
/// `UtcOffset::from_hms` and `checked_to_offset`, and `Date`'s year,
/// month and day: the date of a timestamp at a whole-hour offset is a
/// function of the two arguments alone; an offset of more than 25 whole
/// hours is rejected by `from_hms`'s range check.
#[verifier::external_body]
fn date_at_offset(secs: i64, hours: i8) -> (r: Option<(i32, u8, u8)>)
    ensures
        r matches Some(d) ==> civil_date_of(secs as int, hours as int) == Some(
            (d.0 as int, d.1 as int, d.2 as int),
        ),
        r is None ==> civil_date_of(secs as int, hours as int) is None,
        hours < -25 || hours > 25 ==> r is None,
{
    let odt = time::OffsetDateTime::from_unix_timestamp(secs).ok()?;
    let off = time::UtcOffset::from_hms(hours, 0, 0).ok()?;
    let shifted = odt.checked_to_offset(off)?;
    Some((shifted.year(), u8::from(shifted.month()), shifted.day()))
}

impl Host {
    /// The current date, as of the host's construction, shifted by the
    /// given whole-hour offset (UTC when absent). An offset outside the
    /// calendar's supported range reports the date as unavailable rather
    /// than failing.
    pub fn today(&self, offset: Option<i64>) -> (r: Option<(i32, u8, u8)>)
        ensures
            ({
                let h = match offset {
                    Some(h) => h as int,
                    None => 0,
                };
                &&& (h < -128 || h > 127) ==> r is None
                &&& (-128 <= h <= 127) ==> (match r {
                    Some(d) => civil_date_of(self.now_secs as int, h) == Some(
                        (d.0 as int, d.1 as int, d.2 as int),
                    ),
                    None => civil_date_of(self.now_secs as int, h) is None,
                })
            }),
    {
        let h: i64 = match offset {
            Some(h) => h,
            None => 0,
        };
        if h < -128 || h > 127 {
            return None;
        }
        date_at_offset(self.now_secs, h as i8)
    }
}

/// The diagnostics' messages joined with commas.
pub open spec fn joined(msgs: Seq<Seq<char>>) -> Seq<char>
    decreases msgs.len(),
{
    if msgs.len() == 0 {
        Seq::empty()
    } else if msgs.len() == 1 {
        msgs[0]
    } else {
        joined(msgs.drop_last()) + ", "@ + msgs.last()
    }
}

/// The single flattened message a failed compilation reports.
pub open spec fn compilation_failed_message(msgs: Seq<Seq<char>>) -> Seq<char> {
    "Compilation failed: "@ + joined(msgs)
}

/// Flattens compiler diagnostics into the one message the caller sees.
#[verifier::loop_isolation(false)]
pub fn flatten_diagnostics(msgs: &Vec<String>) -> (r: String)
    ensures
        r@ == compilation_failed_message(segs_view(msgs@)),
{
    let ghost all = segs_view(msgs@);
    let mut joined_text = String::new();
    let mut i: usize = 0;
    proof {
        assert(all.take(0) =~= Seq::<Seq<char>>::empty());
        assert(joined_text@ =~= joined(all.take(0)));
    }
    while i < msgs.len()
        invariant
            i <= msgs.len(),
            joined_text@ == joined(all.take(i as int)),
        decreases msgs.len() - i,
    {
        proof {
            assert(all.take(i + 1).drop_last() =~= all.take(i as int));
            assert(all.take(i + 1).last() == msgs@[i as int]@);
        }
        if i > 0 {
            joined_text.append(", ");
        }
        joined_text.append(msgs[i].as_str());
        proof {
            if i == 0 {
                assert(joined_text@ =~= joined(all.take(1)));
            }
        }
        i = i + 1;
    }
    proof {
        assert(all.take(msgs@.len() as int) =~= all);
    }
    let mut out = String::from_str("Compilation failed: ");
    out.append(joined_text.as_str());
    out
}

} // verus!
