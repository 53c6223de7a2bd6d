//! The playlist session: the records of the last parse, a snapshot of them,
//! and the operations over them.

use vstd::prelude::*;
use vstd::string::StringExecFns;
use core::time::Duration;
use crate::extract::{entries, entries_upto, file_pattern, last_index_before, parse_line, EXTINF};
use crate::order::{sort_records, stable_sorted};
use crate::bindings::{is_valid_url, lower_of, lowercase, random_index, shuffle_infos, url_parses};
use crate::query::{compile_all, filter_records, filtered, pattern_views, resolve, resolve_key, all_compile, Field, QueryError};
use crate::record::{bad, copy_infos, good, infos_view, Info, InfoView};
use crate::render::{m3u_content, m3u_text};
use crate::text::{chars_of, clean_lines, ends_with, find, has_suffix, split_clean_lines, str_is, views};

verus! {

/// The `User-Agent` header that liveness probes send.
pub const USER_AGENT: &'static str = "Mozilla/5.0 (Macintosh; Intel Mac OS X 10_15_7) AppleWebKit/537.36 (KHTML, like Gecko) Chrome/111.0.0.0 Safari/537.36";

/// The network timeout when none is given, in seconds.
pub const DEFAULT_TIMEOUT_SECS: u64 = 5;

/// Why a document yielded no records.
#[derive(PartialEq, Eq, Structural, Clone, Copy, Debug)]
pub enum ParseError {
    /// The document holds no line with content.
    NoContent,
}

/// The two shapes a record set can be saved in.
#[derive(PartialEq, Eq, Structural, Clone, Copy, Debug)]
pub enum ExportFormat {
    Json,
    M3u,
}

/// Why a record set was not saved.
#[derive(PartialEq, Eq, Structural, Clone, Copy, Debug)]
pub enum ExportError {
    /// There is no record to save.
    NoStreams,
    /// The format is neither `json` nor `m3u`.
    UnrecognisedFormat,
}

/// The format that a file name asks for: the text after its last dot, or
/// `format` where it has no dot.
pub open spec fn format_for(filename: Seq<char>, format: Seq<char>) -> Seq<char> {
    let d = last_index_before(filename, '.', filename.len() as int);
    if d >= 0 {
        filename.subrange(d + 1, filename.len() as int)
    } else {
        format
    }
}

/// The file name to write: as given where, lower-cased, it already ends with
/// the format; otherwise with `.` and the format appended.
pub open spec fn file_name_for(filename: Seq<char>, fmt: Seq<char>) -> Seq<char> {
    if ends_with(lower_of(filename), fmt) {
        filename
    } else {
        filename + "."@ + fmt
    }
}

/// Where and how a record set is saved, or why it is not.
pub open spec fn export_plan_of(filename: Seq<char>, format: Seq<char>, empty: bool) -> Result<
    (Seq<char>, ExportFormat),
    ExportError,
> {
    let fmt = format_for(filename, format);
    if empty {
        Err(ExportError::NoStreams)
    } else if fmt == "json"@ {
        Ok((file_name_for(filename, fmt), ExportFormat::Json))
    } else if fmt == "m3u"@ {
        Ok((file_name_for(filename, fmt), ExportFormat::M3u))
    } else {
        Err(ExportError::UnrecognisedFormat)
    }
}

/// The indices, below `n`, of the records that a liveness probe is owed:
/// none when probing is off, else those whose status is `BAD`.
pub open spec fn probe_list(s: Seq<InfoView>, check_live: bool, n: int) -> Seq<usize>
    decreases n,
{
    if n <= 0 || n > s.len() || !check_live {
        Seq::empty()
    } else if s[n - 1].status == bad() {
        probe_list(s, check_live, n - 1).push((n - 1) as usize)
    } else {
        probe_list(s, check_live, n - 1)
    }
}

/// What a filter returns: the refusal of its key, of an empty pattern list,
/// or of a pattern that does not compile, in that order; otherwise success.
pub open spec fn filter_outcome(key: Seq<char>, sep: Seq<char>, nested: bool, pats: Seq<Seq<char>>) -> Result<
    (),
    QueryError,
> {
    match resolve_key(key, sep, nested) {
        Err(e) => Err(e),
        Ok(_) => if pats.len() == 0 {
            Err(QueryError::NoPatterns)
        } else if !all_compile(pats) {
            Err(QueryError::BadPattern)
        } else {
            Ok(())
        },
    }
}

/// Whether a playlist source is a URL to fetch rather than a file to read.
pub fn is_remote_source(path: &str) -> (r: bool)
    ensures
        r == url_parses(path@),
{
    is_valid_url(path)
}

/// A playlist session: the live record set, the snapshot taken when it was
/// extracted, and the settings of the run.
pub struct M3uParser {
    pub streams_info: Vec<Info>,
    streams_info_backup: Vec<Info>,
    lines: Vec<Vec<char>>,
    timeout: Duration,
    enforce_schema: bool,
    check_live: bool,
}

impl M3uParser {
    /// The records as extraction left them.
    pub closed spec fn snapshot(&self) -> Seq<InfoView> {
        infos_view(self.streams_info_backup@)
    }

    /// The clean lines of the last document.
    pub closed spec fn line_views(&self) -> Seq<Seq<char>> {
        views(self.lines@)
    }

    /// Whether liveness probes are on for this run.
    pub closed spec fn live_checks(&self) -> bool {
        self.check_live
    }

    /// The network timeout of the session.
    pub closed spec fn timeout_spec(&self) -> Duration {
        self.timeout
    }

    /// Whether the last run was asked to hold to the schema.
    pub closed spec fn schema_enforced(&self) -> bool {
        self.enforce_schema
    }

    /// The live records themselves.
    pub closed spec fn live(&self) -> Seq<Info> {
        self.streams_info@
    }

    /// The live records.
    pub closed spec fn records(&self) -> Seq<InfoView> {
        infos_view(self.streams_info@)
    }

    /// A session with no records, and the given network timeout (five seconds
    /// where none is given).
    pub fn new(timeout: Option<Duration>) -> (r: M3uParser)
        ensures
            r.records() == Seq::<InfoView>::empty(),
            r.snapshot() == Seq::<InfoView>::empty(),
            r.line_views() == Seq::<Seq<char>>::empty(),
            !r.live_checks(),
            r.schema_enforced(),
            timeout matches Some(t) ==> r.timeout_spec() == t,
    {
        let timeout = match timeout {
            Some(t) => t,
            None => Duration::from_secs(DEFAULT_TIMEOUT_SECS),
        };
        let r = M3uParser {
            streams_info: Vec::new(),
            streams_info_backup: Vec::new(),
            lines: Vec::new(),
            timeout,
            enforce_schema: true,
            check_live: false,
        };
        assert(r.records() =~= Seq::<InfoView>::empty());
        assert(r.snapshot() =~= Seq::<InfoView>::empty());
        assert(r.line_views() =~= Seq::<Seq<char>>::empty());
        r
    }

    /// The network timeout of this session.
    pub fn timeout(&self) -> (r: Duration)
        ensures
            r == self.timeout_spec(),
    {
        self.timeout
    }

    /// Whether this run probes the liveness of streams.
    pub fn check_live(&self) -> (r: bool)
        ensures
            r == self.live_checks(),
    {
        self.check_live
    }

    /// Whether the run was asked to hold to the schema.
    pub fn enforce_schema(&self) -> (r: bool)
        ensures
            r == self.schema_enforced(),
    {
        self.enforce_schema
    }

    /// Extracts the records of the clean lines, in document order, into both
    /// the live set and the snapshot.
    fn parse_lines(&mut self)
        ensures
            final(self).records() == entries(old(self).line_views()),
            final(self).snapshot() == entries(old(self).line_views()),
            final(self).line_views() == old(self).line_views(),
            final(self).check_live == old(self).check_live,
            final(self).enforce_schema == old(self).enforce_schema,
            final(self).timeout == old(self).timeout,
    {
        let file_re = file_pattern();
        let marker = chars_of(EXTINF);
        let mut out: Vec<Info> = Vec::new();
        let mut i: usize = 0;
        while i < self.lines.len()
            invariant
                i <= self.lines.len(),
                marker@ == EXTINF@,
                crate::extract::file_pattern_ready(file_re),
                infos_view(out@) == entries_upto(views(self.lines@), i as int),
            decreases self.lines.len() - i,
        {
            let ghost ls = views(self.lines@);
            assert(ls[i as int] == self.lines@[i as int]@);
            let ghost before = infos_view(out@);
            if find(&self.lines[i], &marker, 0).is_some() {
                match parse_line(&self.lines, i, &file_re) {
                    Some(info) => {
                        out.push(info);
                        assert(infos_view(out@) =~= before.push(info@));
                    },
                    None => {},
                }
            }
            i = i + 1;
        }
        let backup = copy_infos(&out);
        self.streams_info = out;
        self.streams_info_backup = backup;
    }

    /// Reads a playlist document: keeps its clean lines and extracts its
    /// records into the live set and the snapshot. A document with no line of
    /// content is refused and the records are left as they were. The records'
    /// statuses are as extraction found them; probes come after.
    pub fn parse_content(&mut self, content: &str, check_live: bool, enforce_schema: bool) -> (r:
        Result<(), ParseError>)
        ensures
            final(self).line_views() == clean_lines(content@),
            final(self).live_checks() == check_live,
            final(self).schema_enforced() == enforce_schema,
            final(self).timeout_spec() == old(self).timeout_spec(),
            clean_lines(content@).len() == 0 ==> r == Err::<(), ParseError>(ParseError::NoContent)
                && final(self).records() == old(self).records() && final(self).snapshot()
                == old(self).snapshot(),
            clean_lines(content@).len() > 0 ==> r is Ok && final(self).records() == entries(
                clean_lines(content@),
            ) && final(self).snapshot() == entries(clean_lines(content@)),
    {
        self.check_live = check_live;
        self.enforce_schema = enforce_schema;
        let chars = chars_of(content);
        self.lines = split_clean_lines(&chars);
        if self.lines.len() == 0 {
            return Err(ParseError::NoContent);
        }
        self.parse_lines();
        Ok(())
    }

    /// The indices of the records that a liveness probe is owed, in order:
    /// none when probing is off, else those whose status is `BAD`.
    pub fn probe_targets(&self) -> (r: Vec<usize>)
        ensures
            r@ == probe_list(self.records(), self.live_checks(), self.records().len() as int),
    {
        let mut out: Vec<usize> = Vec::new();
        if !self.check_live {
            assert(out@ =~= probe_list(self.records(), false, self.records().len() as int));
            return out;
        }
        let mut i: usize = 0;
        while i < self.streams_info.len()
            invariant
                i <= self.streams_info.len(),
                self.check_live,
                out@ == probe_list(self.records(), true, i as int),
            decreases self.streams_info.len() - i,
        {
            assert(self.records()[i as int] == self.streams_info@[i as int]@);
            if str_is(self.streams_info[i].status.as_str(), "BAD") {
                out.push(i);
            }
            i = i + 1;
        }
        out
    }

    /// Records the outcome of the liveness probe of record `index`: a record
    /// whose status is `BAD` becomes `GOOD` when the probe reached it, in the
    /// live set and in the snapshot. Nothing changes when probing is off, when
    /// the probe failed, or when the record was not `BAD`.
    pub fn record_probe(&mut self, index: usize, reachable: bool)
        ensures
            final(self).live_checks() == old(self).live_checks(),
            final(self).line_views() == old(self).line_views(),
            ({
                let promote = old(self).live_checks() && reachable && index < old(self).records().len()
                    && old(self).records()[index as int].status == bad();
                &&& promote ==> final(self).records() == old(self).records().update(
                    index as int,
                    InfoView { status: good(), ..old(self).records()[index as int] },
                )
                &&& !promote ==> final(self).records() == old(self).records()
                &&& !promote ==> final(self).snapshot() == old(self).snapshot()
                &&& promote && index < old(self).snapshot().len()
                    && old(self).snapshot()[index as int].status == bad() ==> final(self).snapshot()
                    == old(self).snapshot().update(
                    index as int,
                    InfoView { status: good(), ..old(self).snapshot()[index as int] },
                )
                &&& promote && !(index < old(self).snapshot().len()
                    && old(self).snapshot()[index as int].status == bad()) ==> final(self).snapshot()
                    == old(self).snapshot()
            }),
    {
        if !self.check_live || !reachable || index >= self.streams_info.len() {
            return;
        }
        assert(self.records()[index as int] == self.streams_info@[index as int]@);
        if !str_is(self.streams_info[index].status.as_str(), "BAD") {
            return;
        }
        let ghost old_records = self.records();
        self.streams_info[index].status = "GOOD".to_owned();
        assert(self.records() =~= old_records.update(
            index as int,
            InfoView { status: good(), ..old_records[index as int] },
        ));
        if index < self.streams_info_backup.len() {
            assert(self.snapshot()[index as int] == self.streams_info_backup@[index as int]@);
            if str_is(self.streams_info_backup[index].status.as_str(), "BAD") {
                let ghost old_snapshot = self.snapshot();
                self.streams_info_backup[index].status = "GOOD".to_owned();
                assert(self.snapshot() =~= old_snapshot.update(
                    index as int,
                    InfoView { status: good(), ..old_snapshot[index as int] },
                ));
            }
        }
    }

    /// The playlist text of the live records; empty where there are none.
    pub fn get_m3u_content(&self) -> (r: String)
        ensures
            r@ == m3u_text(self.records()),
    {
        m3u_content(&self.streams_info)
    }

    /// Restores the live records from the snapshot.
    pub fn reset_operations(&mut self)
        ensures
            final(self).records() == old(self).snapshot(),
            final(self).snapshot() == old(self).snapshot(),
            final(self).live_checks() == old(self).live_checks(),
            final(self).line_views() == old(self).line_views(),
    {
        self.streams_info = copy_infos(&self.streams_info_backup);
    }

    /// Filters the live records by the text of the field that `key` names.
    /// With `retrieve`, a record stays when some pattern matches it; without,
    /// when none does. A key that names no field, an empty pattern list or a
    /// pattern that does not compile is refused, and the records stay as they
    /// were. The snapshot is never touched.
    pub fn filter_by(
        &mut self,
        key: &str,
        filters: Vec<&str>,
        key_splitter: &str,
        retrieve: bool,
        nested_key: bool,
    ) -> (r: Result<(), QueryError>)
        ensures
            final(self).snapshot() == old(self).snapshot(),
            final(self).live_checks() == old(self).live_checks(),
            final(self).line_views() == old(self).line_views(),
            r is Err ==> final(self).records() == old(self).records(),
            r == filter_outcome(key@, key_splitter@, nested_key, pattern_views(filters@)),
            r is Ok ==> final(self).records() == filtered(
                old(self).records(),
                resolve_key(key@, key_splitter@, nested_key)->Ok_0,
                pattern_views(filters@),
                retrieve,
            ),
    {
        let field = match resolve(key, key_splitter, nested_key) {
            Ok(f) => f,
            Err(e) => {
                return Err(e);
            },
        };
        if filters.len() == 0 {
            return Err(QueryError::NoPatterns);
        }
        let pats = match compile_all(&filters) {
            Some(p) => p,
            None => {
                return Err(QueryError::BadPattern);
            },
        };
        self.streams_info = filter_records(&self.streams_info, field, &pats, retrieve);
        Ok(())
    }

    /// Sorts the live records stably by the text of the field that `key`
    /// names, ascending or descending. A key that names no field is refused
    /// and the records stay as they were. The snapshot is never touched.
    pub fn sort_by(&mut self, key: &str, key_splitter: &str, asc: bool, nested_key: bool) -> (r:
        Result<(), QueryError>)
        ensures
            final(self).snapshot() == old(self).snapshot(),
            final(self).live_checks() == old(self).live_checks(),
            final(self).line_views() == old(self).line_views(),
            match resolve_key(key@, key_splitter@, nested_key) {
                Ok(f) => r is Ok && stable_sorted(final(self).records(), old(self).records(), f, asc),
                Err(e) => r == Err::<(), QueryError>(e) && final(self).records() == old(self).records(),
            },
    {
        let field = match resolve(key, key_splitter, nested_key) {
            Ok(f) => f,
            Err(e) => {
                return Err(e);
            },
        };
        self.streams_info = sort_records(&self.streams_info, field, asc);
        Ok(())
    }

    /// Removes the records whose reference matches one of the patterns.
    pub fn remove_by_extension(&mut self, extensions: Vec<&str>) -> (r: Result<(), QueryError>)
        ensures
            final(self).snapshot() == old(self).snapshot(),
            r == filter_outcome("url"@, "-"@, false, pattern_views(extensions@)),
            r is Err ==> final(self).records() == old(self).records(),
            r is Ok ==> final(self).records() == filtered(
                old(self).records(),
                Field::Url,
                pattern_views(extensions@),
                false,
            ),
    {
        proof {
            reveal_strlit("url");
            reveal_strlit("title");
            reveal_strlit("logo");
            reveal_strlit("");
        }
        self.filter_by("url", extensions, "-", false, false)
    }

    /// Keeps only the records whose reference matches one of the patterns.
    pub fn retrieve_by_extension(&mut self, extensions: Vec<&str>) -> (r: Result<(), QueryError>)
        ensures
            final(self).snapshot() == old(self).snapshot(),
            r == filter_outcome("url"@, "-"@, false, pattern_views(extensions@)),
            r is Err ==> final(self).records() == old(self).records(),
            r is Ok ==> final(self).records() == filtered(
                old(self).records(),
                Field::Url,
                pattern_views(extensions@),
                true,
            ),
    {
        proof {
            reveal_strlit("url");
            reveal_strlit("title");
            reveal_strlit("logo");
            reveal_strlit("");
        }
        self.filter_by("url", extensions, "-", true, false)
    }

    /// Removes the records whose category matches one of the patterns.
    pub fn remove_by_category(&mut self, extensions: Vec<&str>) -> (r: Result<(), QueryError>)
        ensures
            final(self).snapshot() == old(self).snapshot(),
            r == filter_outcome("category"@, "-"@, false, pattern_views(extensions@)),
            r is Err ==> final(self).records() == old(self).records(),
            r is Ok ==> final(self).records() == filtered(
                old(self).records(),
                Field::Category,
                pattern_views(extensions@),
                false,
            ),
    {
        proof {
            reveal_strlit("category");
            reveal_strlit("title");
            reveal_strlit("logo");
            reveal_strlit("url");
        }
        self.filter_by("category", extensions, "-", false, false)
    }

    /// Keeps only the records whose category matches one of the patterns.
    pub fn retrieve_by_category(&mut self, extensions: Vec<&str>) -> (r: Result<(), QueryError>)
        ensures
            final(self).snapshot() == old(self).snapshot(),
            r == filter_outcome("category"@, "-"@, false, pattern_views(extensions@)),
            r is Err ==> final(self).records() == old(self).records(),
            r is Ok ==> final(self).records() == filtered(
                old(self).records(),
                Field::Category,
                pattern_views(extensions@),
                true,
            ),
    {
        proof {
            reveal_strlit("category");
            reveal_strlit("title");
            reveal_strlit("logo");
            reveal_strlit("url");
        }
        self.filter_by("category", extensions, "-", true, false)
    }

    /// Where and in which format `to_file` saves the live records: the format
    /// is the file name's extension where it has one, else `format`; the
    /// extension is appended where the name does not already end with it.
    /// Refused when there are no records or the format is neither `json` nor `m3u`.
    pub fn export_plan(&self, filename: &str, format: &str) -> (r: Result<(String, ExportFormat), ExportError>)
        ensures
            match r {
                Ok((name, f)) => export_plan_of(filename@, format@, self.records().len() == 0) == Ok::<
                    (Seq<char>, ExportFormat),
                    ExportError,
                >((name@, f)),
                Err(e) => export_plan_of(filename@, format@, self.records().len() == 0) == Err::<
                    (Seq<char>, ExportFormat),
                    ExportError,
                >(e),
            },
    {
        let name = chars_of(filename);
        let mut end = name.len();
        while end > 0 && name[end - 1] != '.'
            invariant
                end <= name.len(),
                name@ == filename@,
                last_index_before(name@, '.', name@.len() as int) == last_index_before(
                    name@,
                    '.',
                    end as int,
                ),
            decreases end,
        {
            end = end - 1;
        }
        let fmt: Vec<char> = if end > 0 {
            let mut v: Vec<char> = Vec::new();
            let mut k = end;
            while k < name.len()
                invariant
                    end <= k <= name.len(),
                    v@ == name@.subrange(end as int, k as int),
                decreases name.len() - k,
            {
                v.push(name[k]);
                k = k + 1;
                assert(v@ =~= name@.subrange(end as int, k as int));
            }
            v
        } else {
            chars_of(format)
        };
        assert(fmt@ == format_for(filename@, format@));
        if self.streams_info.len() == 0 {
            return Err(ExportError::NoStreams);
        }
        let json = chars_of("json");
        let m3u = chars_of("m3u");
        let kind = if crate::text::same_chars(&fmt, &json) {
            ExportFormat::Json
        } else if crate::text::same_chars(&fmt, &m3u) {
            ExportFormat::M3u
        } else {
            return Err(ExportError::UnrecognisedFormat);
        };
        let lower = lowercase(filename);
        let lower_chars = chars_of(lower.as_str());
        let mut target = crate::text::string_of(&name, 0, name.len());
        assert(name@.subrange(0, name@.len() as int) =~= name@);
        if !has_suffix(&lower_chars, &fmt) {
            target.append(".");
            let fmt_text = crate::text::string_of(&fmt, 0, fmt.len());
            assert(fmt@.subrange(0, fmt@.len() as int) =~= fmt@);
            target.append(fmt_text.as_str());
        }
        Ok((target, kind))
    }

    /// A copy of the live records.
    pub fn get_vector(&self) -> (r: Vec<Info>)
        ensures
            infos_view(r@) == self.records(),
    {
        copy_infos(&self.streams_info)
    }

    /// A record picked at random from the live records, after shuffling them
    /// when `random_shuffle` is set; `None` when there are none. Without the
    /// shuffle the records stay as they were; with it they are reordered, none
    /// added or lost.
    pub fn get_random_stream(&mut self, random_shuffle: bool) -> (r: Option<&Info>)
        ensures
            r is None <==> old(self).records().len() == 0,
            final(self).snapshot() == old(self).snapshot(),
            !random_shuffle ==> final(self).live() == old(self).live(),
            final(self).live().to_multiset() == old(self).live().to_multiset(),
            r matches Some(info) ==> final(self).live().contains(*info),
    {
        if self.streams_info.len() == 0 {
            return None;
        }
        if random_shuffle {
            shuffle_infos(&mut self.streams_info);
        }
        let i = random_index(self.streams_info.len());
        let r = &self.streams_info[i];
        assert(self.streams_info@[i as int] == *r);
        Some(r)
    }
}

} // verus!
