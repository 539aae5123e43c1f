use vstd::prelude::*;

use crate::chars::{
    chars_to_string, file_name_chars, file_name_spec, has_suffix, join_path, join_path_chars,
    last_index_of, last_index_of_exec, to_chars,
};
use crate::decode::{
    gz_decode, gzip_plain, sevenz_entries, sevenz_list, sevenz_view, tar_entries, tar_list,
    tar_view, zip_by_index, zip_contents, zip_entries, zip_entry_ok, zip_idx_ok, zip_len,
    zip_open, SevenZEntry, TarEntry,
};
use crate::error::ExtractError;
use crate::format::{resolve_format, resolve_spec, ArchiveFormat, FormatSpec};
use crate::plan::{is_safe_entry_name, is_safe_name, ExtractionPlan, PlanEntry, PlanEntrySpec};

verus! {

/// One extraction request: the archive, a destination hint, and the
/// report-only switches. Immutable once constructed.
pub struct XtractArgs {
    /// Archive to extract.
    pub archive: String,
    /// Destination directory hint.
    pub destination: String,
    /// Only report actions, without performing them.
    pub dry: bool,
    /// List entries instead of writing them.
    pub list: bool,
}

/// A name of dots alone ('.', '..', and the like), which carries no
/// extension even though it holds dots beyond its first position.
pub open spec fn all_dots(s: Seq<char>) -> bool {
    forall|i: int| 0 <= i < s.len() ==> #[trigger] s[i] == '.'
}

/// A destination hint is acceptable only when it looks like a directory:
/// its final path component must not carry a file extension.
pub open spec fn hint_has_extension(hint: Seq<char>) -> bool {
    last_index_of(file_name_spec(hint), '.') >= 1 && !all_dots(file_name_spec(hint))
}

/// Whether a file name, already split from its path, carries an extension:
/// a dot after the first position in a name not made of dots alone.
pub(crate) fn name_has_extension(name: &Vec<char>) -> (r: bool)
    ensures
        r == (last_index_of(name@, '.') >= 1 && !all_dots(name@)),
{
    let dot_past_start: bool = match last_index_of_exec(name, '.') {
        Some(i) => i >= 1,
        None => false,
    };
    if !dot_past_start {
        return false;
    }
    let n: usize = name.len();
    let mut j: usize = 0;
    while j < n
        invariant
            j <= n,
            n == name@.len(),
            last_index_of(name@, '.') >= 1,
            forall|k: int| 0 <= k < j ==> #[trigger] name@[k] == '.',
        decreases n - j,
    {
        if name[j] != '.' {
            proof {
                assert(!all_dots(name@));
            }
            return true;
        }
        j += 1;
    }
    proof {
        assert(all_dots(name@));
    }
    false
}

/// The extraction root: the archive's full file name becomes a directory
/// under the hint.
pub open spec fn dest_spec(archive: Seq<char>, hint: Seq<char>) -> Seq<char> {
    join_path(hint, file_name_spec(archive))
}

/// The element-wise views of a plan vector.
pub open spec fn plan_view(v: Seq<PlanEntry>) -> Seq<PlanEntrySpec> {
    v.map_values(|e: PlanEntry| e@)
}

/// The plan a tar entry sequence gives: unsafe names are skipped, the rest
/// keep their name, kind, contents and mode.
pub open spec fn tar_plan(es: Seq<(Seq<char>, Seq<u8>, bool, u32)>) -> Seq<PlanEntrySpec>
    decreases es.len(),
{
    if es.len() == 0 {
        Seq::<PlanEntrySpec>::empty()
    } else {
        let prev = tar_plan(es.drop_last());
        let e = es.last();
        if is_safe_name(e.0) {
            prev.push(
                PlanEntrySpec { path: e.0, is_dir: e.2, data: e.1, mode: Some(e.3), note: None },
            )
        } else {
            prev
        }
    }
}

/// The plan a zip entry sequence gives: unsafe names are skipped; a name
/// ending in '/' is a directory; a non-empty comment is kept as a note.
pub open spec fn zip_plan(es: Seq<(Seq<char>, Seq<u8>, Option<u32>, Seq<char>)>) -> Seq<
    PlanEntrySpec,
>
    decreases es.len(),
{
    if es.len() == 0 {
        Seq::<PlanEntrySpec>::empty()
    } else {
        let prev = zip_plan(es.drop_last());
        let e = es.last();
        if is_safe_name(e.0) {
            prev.push(
                PlanEntrySpec {
                    path: e.0,
                    is_dir: e.0.len() > 0 && e.0[e.0.len() - 1] == '/',
                    data: e.1,
                    mode: e.2,
                    note: if e.3.len() > 0 {
                        Some(e.3)
                    } else {
                        None
                    },
                },
            )
        } else {
            prev
        }
    }
}

/// The plan a 7z entry sequence gives: unsafe names are skipped; the format
/// exposes no permission bits.
pub open spec fn sevenz_plan(es: Seq<(Seq<char>, Seq<u8>, bool)>) -> Seq<PlanEntrySpec>
    decreases es.len(),
{
    if es.len() == 0 {
        Seq::<PlanEntrySpec>::empty()
    } else {
        let prev = sevenz_plan(es.drop_last());
        let e = es.last();
        if is_safe_name(e.0) {
            prev.push(PlanEntrySpec { path: e.0, is_dir: e.2, data: e.1, mode: None, note: None })
        } else {
            prev
        }
    }
}

/// The plan a gzip stream gives: one file under the given name, unless that
/// name itself is unsafe.
pub open spec fn gz_plan(name: Seq<char>, data: Seq<u8>) -> Seq<PlanEntrySpec> {
    if is_safe_name(name) {
        seq![PlanEntrySpec { path: name, is_dir: false, data: data, mode: None, note: None }]
    } else {
        Seq::<PlanEntrySpec>::empty()
    }
}

/// What extracting tar bytes yields: `None` where they do not parse.
pub open spec fn tar_extract_result(data: Seq<u8>) -> Option<Seq<PlanEntrySpec>> {
    match tar_entries(data) {
        Some(es) => Some(tar_plan(es)),
        None => None,
    }
}

/// A 7z entry that can serve as the nested tar member: an immediate (not
/// nested), non-directory entry named `*.tar`.
pub open spec fn is_tar_member(e: (Seq<char>, Seq<u8>, bool)) -> bool {
    !e.2 && crate::chars::first_index_of(e.0, '/') == -1 && e.0.len() > 4 && has_suffix(
        e.0,
        ".tar"@,
    )
}

/// The first tar member at or after position `k`, or -1.
pub open spec fn first_tar_index_from(es: Seq<(Seq<char>, Seq<u8>, bool)>, k: int) -> int
    decreases es.len() - k,
{
    if k < 0 || k >= es.len() {
        -1
    } else if is_tar_member(es[k]) {
        k
    } else {
        first_tar_index_from(es, k + 1)
    }
}

/// The first tar member of the entry sequence, or -1 when there is none.
pub open spec fn first_tar_index(es: Seq<(Seq<char>, Seq<u8>, bool)>) -> int {
    first_tar_index_from(es, 0)
}

/// What the nested tar-in-7z pipeline yields from the 7z bytes: the direct
/// tar extraction of the first tar member's contents; `None` where the 7z
/// does not parse or the member's contents do not.
pub open spec fn tar7z_extract_result(data: Seq<u8>) -> Option<Seq<PlanEntrySpec>> {
    match sevenz_entries(data) {
        Some(es) => {
            let k = first_tar_index(es);
            if k == -1 {
                None
            } else {
                tar_extract_result(es[k].1)
            }
        },
        None => None,
    }
}

/// Builds the plan of a tar entry list.
fn build_tar_plan(entries: Vec<TarEntry>) -> (out: Vec<PlanEntry>)
    ensures
        plan_view(out@) == tar_plan(tar_view(entries@)),
{
    let ghost orig = entries@;
    let mut rest = entries;
    let mut out: Vec<PlanEntry> = Vec::new();
    let ghost mut i: int = 0;
    while rest.len() > 0
        invariant
            0 <= i,
            i + rest@.len() == orig.len(),
            rest@ == orig.subrange(i as int, orig.len() as int),
            plan_view(out@) == tar_plan(tar_view(orig.subrange(0, i as int))),
        decreases rest@.len(),
    {
        let e = rest.remove(0);
        proof {
            assert(e == orig[i as int]);
            assert(orig.subrange(i as int, orig.len() as int).remove(0) =~= orig.subrange(
                i + 1 as int,
                orig.len() as int,
            ));
        }
        let name_chars = to_chars(e.name.as_str());
        let ghost prev = out@;
        if is_safe_entry_name(&name_chars) {
            out.push(
                PlanEntry {
                    path: e.name,
                    is_dir: e.is_dir,
                    data: e.data,
                    mode: Some(e.mode),
                    note: None,
                },
            );
        }
        proof {
            assert(tar_view(orig.subrange(0, i + 1 as int)).drop_last() =~= tar_view(
                orig.subrange(0, i as int),
            ));
            assert(tar_view(orig.subrange(0, i + 1 as int)).last() == e@);
            if is_safe_name(e.name@) {
                assert(plan_view(out@) =~= plan_view(prev).push(out@.last()@));
                assert(plan_view(out@) =~= tar_plan(tar_view(orig.subrange(0, i + 1 as int))));
            } else {
                assert(plan_view(out@) =~= tar_plan(tar_view(orig.subrange(0, i + 1 as int))));
            }
            i = i + 1;
        }
    }
    proof {
        assert(orig.subrange(0, orig.len() as int) =~= orig);
    }
    out
}

/// Tar extraction: one streaming parse of the archive bytes, every safe
/// entry kept with its mode.
pub fn extract_tar(data: &Vec<u8>) -> (r: Result<Vec<PlanEntry>, ExtractError>)
    ensures
        match r {
            Ok(out) => tar_extract_result(data@) == Some(plan_view(out@)),
            Err(e) => tar_extract_result(data@) is None && e is IoFailure,
        },
{
    match tar_list(data) {
        Ok(entries) => Ok(build_tar_plan(entries)),
        Err(e) => Err(e),
    }
}

/// Builds the plan of a 7z entry list.
fn build_sevenz_plan(entries: Vec<SevenZEntry>) -> (out: Vec<PlanEntry>)
    ensures
        plan_view(out@) == sevenz_plan(sevenz_view(entries@)),
{
    let ghost orig = entries@;
    let mut rest = entries;
    let mut out: Vec<PlanEntry> = Vec::new();
    let ghost mut i: int = 0;
    while rest.len() > 0
        invariant
            0 <= i,
            i + rest@.len() == orig.len(),
            rest@ == orig.subrange(i as int, orig.len() as int),
            plan_view(out@) == sevenz_plan(sevenz_view(orig.subrange(0, i as int))),
        decreases rest@.len(),
    {
        let e = rest.remove(0);
        proof {
            assert(e == orig[i as int]);
            assert(orig.subrange(i as int, orig.len() as int).remove(0) =~= orig.subrange(
                i + 1 as int,
                orig.len() as int,
            ));
        }
        let name_chars = to_chars(e.name.as_str());
        let ghost prev = out@;
        if is_safe_entry_name(&name_chars) {
            out.push(
                PlanEntry { path: e.name, is_dir: e.is_dir, data: e.data, mode: None, note: None },
            );
        }
        proof {
            assert(sevenz_view(orig.subrange(0, i + 1 as int)).drop_last() =~= sevenz_view(
                orig.subrange(0, i as int),
            ));
            assert(sevenz_view(orig.subrange(0, i + 1 as int)).last() == e@);
            if is_safe_name(e.name@) {
                assert(plan_view(out@) =~= plan_view(prev).push(out@.last()@));
            }
            assert(plan_view(out@) =~= sevenz_plan(sevenz_view(orig.subrange(0, i + 1 as int))));
            i = i + 1;
        }
    }
    proof {
        assert(orig.subrange(0, orig.len() as int) =~= orig);
    }
    out
}

/// 7z extraction: the decoder walks the whole archive; every safe entry is
/// kept. The format exposes no permission bits at this layer.
pub fn extract_7z(data: &Vec<u8>) -> (r: Result<Vec<PlanEntry>, ExtractError>)
    ensures
        match r {
            Ok(out) => sevenz_entries(data@) is Some && plan_view(out@) == sevenz_plan(
                sevenz_entries(data@)->Some_0,
            ),
            Err(e) => sevenz_entries(data@) is None && e is IoFailure,
        },
{
    match sevenz_list(data) {
        Ok(entries) => Ok(build_sevenz_plan(entries)),
        Err(e) => Err(e),
    }
}

/// Gzip extraction: the archive is one compressed stream, not a container;
/// it becomes a single file under the given output name.
pub fn extract_gz(out_name: &str, data: &Vec<u8>) -> (r: Result<Vec<PlanEntry>, ExtractError>)
    ensures
        match r {
            Ok(out) => gzip_plain(data@) is Some && plan_view(out@) == gz_plan(
                out_name@,
                gzip_plain(data@)->Some_0,
            ),
            Err(e) => gzip_plain(data@) is None && e is IoFailure,
        },
{
    let plain = match gz_decode(data) {
        Ok(v) => v,
        Err(e) => {
            return Err(e);
        },
    };
    let name_chars = to_chars(out_name);
    let mut out: Vec<PlanEntry> = Vec::new();
    if is_safe_entry_name(&name_chars) {
        out.push(
            PlanEntry {
                path: out_name.to_owned(),
                is_dir: false,
                data: plain,
                mode: None,
                note: None,
            },
        );
    }
    proof {
        assert(plan_view(out@) =~= gz_plan(out_name@, gzip_plain(data@)->Some_0));
    }
    Ok(out)
}

/// Tar-gz extraction: gzip decompression feeding straight into the tar
/// parse, with no intermediate file.
pub fn extract_targz(data: &Vec<u8>) -> (r: Result<Vec<PlanEntry>, ExtractError>)
    ensures
        match r {
            Ok(out) => gzip_plain(data@) is Some && tar_extract_result(gzip_plain(data@)->Some_0)
                == Some(plan_view(out@)),
            Err(e) => (gzip_plain(data@) is None || tar_extract_result(
                gzip_plain(data@)->Some_0,
            ) is None) && e is IoFailure,
        },
{
    let plain = match gz_decode(data) {
        Ok(v) => v,
        Err(e) => {
            return Err(e);
        },
    };
    extract_tar(&plain)
}

/// Zip extraction: entries are visited by index; an unsafe name is skipped,
/// never fatal; a name ending in '/' is a directory; unix modes and
/// non-empty comments are kept. It succeeds exactly when the bytes parse
/// and every entry decodes. The decoder's central directory keys entries by
/// name, so same-named entries reach the plan merged into one.
pub fn extract_zip(data: &Vec<u8>) -> (r: Result<Vec<PlanEntry>, ExtractError>)
    ensures
        match r {
            Ok(out) => zip_entries(data@) is Some && plan_view(out@) == zip_plan(
                zip_entries(data@)->Some_0,
            ),
            Err(e) => e is IoFailure,
        },
        r is Ok <==> (zip_entries(data@) is Some && forall|i: int|
            0 <= i < zip_entries(data@)->Some_0.len() ==> #[trigger] zip_entry_ok(data@, i)),
{
    let mut archive = match zip_open(data) {
        Ok(a) => a,
        Err(e) => {
            return Err(e);
        },
    };
    let ghost es = zip_contents(archive);
    let n: usize = zip_len(&archive);
    let mut out: Vec<PlanEntry> = Vec::new();
    let mut i: usize = 0;
    while i < n
        invariant
            i <= n,
            n == es.len(),
            zip_contents(archive) == es,
            zip_entries(data@) == Some(es),
            forall|j: int| #[trigger] zip_idx_ok(archive, j) == zip_entry_ok(data@, j),
            forall|j: int| 0 <= j < i ==> #[trigger] zip_entry_ok(data@, j),
            plan_view(out@) == zip_plan(es.subrange(0, i as int)),
        decreases n - i,
    {
        let ghost before = archive;
        let entry = match zip_by_index(&mut archive, i) {
            Ok(en) => en,
            Err(e) => {
                proof {
                    assert(!zip_idx_ok(before, i as int));
                    assert(!zip_entry_ok(data@, i as int));
                    assert(0 <= (i as int) && (i as int) < zip_entries(data@)->Some_0.len());
                }
                return Err(e);
            },
        };
        proof {
            assert(zip_idx_ok(before, i as int));
            assert(zip_entry_ok(data@, i as int));
        }
        let name_chars = to_chars(entry.name.as_str());
        let ghost prev = out@;
        if is_safe_entry_name(&name_chars) {
            let is_dir: bool = name_chars.len() > 0 && name_chars[name_chars.len() - 1] == '/';
            let note: Option<String> = if entry.comment.unicode_len() > 0 {
                Some(entry.comment)
            } else {
                None
            };
            out.push(
                PlanEntry { path: entry.name, is_dir, data: entry.data, mode: entry.mode, note },
            );
        }
        proof {
            assert(es.subrange(0, i + 1 as int).drop_last() =~= es.subrange(0, i as int));
            assert(es.subrange(0, i + 1 as int).last() == es[i as int]);
            if is_safe_name(es[i as int].0) {
                assert(plan_view(out@) =~= plan_view(prev).push(out@.last()@));
            }
            assert(plan_view(out@) =~= zip_plan(es.subrange(0, i + 1 as int)));
        }
        i += 1;
    }
    proof {
        assert(es.subrange(0, n as int) =~= es);
    }
    Ok(out)
}

/// Finds the first nested tar member of a 7z entry list.
fn find_tar_member(entries: &Vec<SevenZEntry>) -> (r: Option<usize>)
    ensures
        match r {
            Some(k) => k < entries@.len() && first_tar_index(sevenz_view(entries@)) == k,
            None => first_tar_index(sevenz_view(entries@)) == -1,
        },
{
    let ghost es = sevenz_view(entries@);
    let n: usize = entries.len();
    let mut i: usize = 0;
    while i < n
        invariant
            i <= n,
            n == entries@.len(),
            es == sevenz_view(entries@),
            es.len() == n,
            first_tar_index(es) == first_tar_index_from(es, i as int),
        decreases n - i,
    {
        let e = &entries[i];
        let name_chars = to_chars(e.name.as_str());
        let no_slash: bool = match last_index_of_exec(&name_chars, '/') {
            Some(_) => false,
            None => true,
        };
        proof {
            crate::chars::lemma_last_index_of_range(e.name@, '/');
            crate::chars::lemma_first_index_of_range(e.name@, '/');
            if last_index_of(e.name@, '/') == -1 {
                assert(crate::chars::first_index_of(e.name@, '/') == -1);
            } else {
                assert(e.name@[last_index_of(e.name@, '/')] == '/');
                assert(crate::chars::first_index_of(e.name@, '/') != -1);
            }
        }
        if !e.is_dir && no_slash && name_chars.len() > 4 && crate::chars::ends_with(
            &name_chars,
            ".tar",
        ) {
            proof {
                assert(es[i as int] == e@);
                assert(is_tar_member(es[i as int]));
            }
            return Some(i);
        }
        proof {
            assert(es[i as int] == e@);
            assert(!is_tar_member(es[i as int]));
        }
        i += 1;
    }
    None
}

/// Nested tar-in-7z extraction: the 7z is decoded in memory, its first tar
/// member is taken, and that member is extracted as a tar archive. With no
/// tar member the request fails and nothing is planned.
pub fn extract_tar7z(data: &Vec<u8>) -> (r: Result<Vec<PlanEntry>, ExtractError>)
    ensures
        match r {
            Ok(out) => tar7z_extract_result(data@) == Some(plan_view(out@)),
            Err(e) => tar7z_extract_result(data@) is None && (e is IoFailure
                || e is NestedArchiveMissingMember),
        },
        sevenz_entries(data@) is Some && first_tar_index(sevenz_entries(data@)->Some_0) == -1
            <==> r is Err && r->Err_0 is NestedArchiveMissingMember,
{
    let entries = match sevenz_list(data) {
        Ok(es) => es,
        Err(e) => {
            return Err(e);
        },
    };
    let k: usize = match find_tar_member(&entries) {
        Some(k) => k,
        None => {
            return Err(ExtractError::NestedArchiveMissingMember);
        },
    };
    let member = &entries[k];
    proof {
        assert(sevenz_view(entries@)[k as int] == member@);
    }
    extract_tar(&member.data)
}

/// How a request is carried out: a fully computed in-memory plan, or a
/// streaming pass the rar decoder must drive against the resolved root.
pub enum Extraction {
    Entries(ExtractionPlan),
    RarStream(String),
}

/// The single-stream output name: the archive's file name with its last
/// three characters (the compression suffix) cut off.
pub open spec fn gz_out_name(name: Seq<char>) -> Seq<char> {
    if name.len() >= 3 {
        name.subrange(0, name.len() - 3)
    } else {
        Seq::<char>::empty()
    }
}

/// What decompressing then untarring yields: `None` where either step fails.
pub open spec fn targz_extract_result(data: Seq<u8>) -> Option<Seq<PlanEntrySpec>> {
    match gzip_plain(data) {
        Some(p) => tar_extract_result(p),
        None => None,
    }
}

/// The planned entries and root a successful in-memory run must return.
pub open spec fn is_entries_result(
    r: Result<Extraction, ExtractError>,
    dest: Seq<char>,
    es: Seq<PlanEntrySpec>,
) -> bool {
    r matches Ok(x) && x matches Extraction::Entries(p) && p.dest_root@ == dest && plan_view(
        p.entries@,
    ) == es
}

/// The whole contract of dispatching one request over the archive bytes.
pub open spec fn process_post(
    args: XtractArgs,
    data: Seq<u8>,
    r: Result<Extraction, ExtractError>,
) -> bool {
    let name = file_name_spec(args.archive@);
    let dest = dest_spec(args.archive@, args.destination@);
    match resolve_spec(name) {
        FormatSpec::Unknown(ext) => r matches Err(e) && e matches ExtractError::UnsupportedFormat(
            s,
        ) && s@ == ext,
        FormatSpec::Planned(ext) => r matches Err(e)
            && e matches ExtractError::PlannedNotImplemented(s) && s@ == ext,
        _ => if hint_has_extension(args.destination@) {
            r matches Err(e) && e is InvalidDestination
        } else {
            match resolve_spec(name) {
                FormatSpec::Tar => match tar_extract_result(data) {
                    Some(es) => is_entries_result(r, dest, es),
                    None => r matches Err(e) && e is IoFailure,
                },
                FormatSpec::TarGz => match targz_extract_result(data) {
                    Some(es) => is_entries_result(r, dest, es),
                    None => r matches Err(e) && e is IoFailure,
                },
                FormatSpec::SevenZip => match sevenz_entries(data) {
                    Some(es) => is_entries_result(r, dest, sevenz_plan(es)),
                    None => r matches Err(e) && e is IoFailure,
                },
                FormatSpec::TarSevenZip => (match tar7z_extract_result(data) {
                    Some(es) => is_entries_result(r, dest, es),
                    None => r matches Err(e) && (e is IoFailure
                        || e is NestedArchiveMissingMember),
                }) && (sevenz_entries(data) is Some && first_tar_index(
                    sevenz_entries(data)->Some_0,
                ) == -1 <==> (r matches Err(e) && e is NestedArchiveMissingMember)),
                FormatSpec::Gzip => match gzip_plain(data) {
                    Some(p) => r matches Ok(x) && x matches Extraction::Entries(pl)
                        && pl.dest_root@ == args.destination@ && plan_view(pl.entries@) == gz_plan(
                        gz_out_name(name),
                        p,
                    ),
                    None => r matches Err(e) && e is IoFailure,
                },
                FormatSpec::Zip => (r matches Ok(x) ==> (x matches Extraction::Entries(p)
                    && p.dest_root@ == dest && zip_entries(data) is Some && plan_view(p.entries@)
                    == zip_plan(zip_entries(data)->Some_0))) && (r is Ok <==> (zip_entries(
                    data,
                ) is Some && forall|i: int|
                    0 <= i < zip_entries(data)->Some_0.len() ==> #[trigger] zip_entry_ok(
                        data,
                        i,
                    ))) && (r matches Err(e) ==> e is IoFailure),
                FormatSpec::Rar => r matches Ok(x) && x matches Extraction::RarStream(d) && d@
                    == dest,
                _ => false,
            }
        },
    }
}

impl XtractArgs {
    /// Validates the destination hint and computes the extraction root. Only
    /// a directory-like hint is allowed: one whose final component has no
    /// file extension. The root is the hint with the archive's full file
    /// name joined under it; creating it on disk is the caller's step.
    pub fn get_destination(&self) -> (r: Result<String, ExtractError>)
        ensures
            match r {
                Ok(s) => !hint_has_extension(self.destination@) && s@ == dest_spec(
                    self.archive@,
                    self.destination@,
                ),
                Err(e) => hint_has_extension(self.destination@) && e is InvalidDestination,
            },
    {
        let hint_chars = to_chars(self.destination.as_str());
        let hint_name = file_name_chars(&hint_chars);
        if name_has_extension(&hint_name) {
            return Err(ExtractError::InvalidDestination);
        }
        let arch_chars = to_chars(self.archive.as_str());
        let fname = file_name_chars(&arch_chars);
        let joined = join_path_chars(&hint_chars, &fname);
        Ok(chars_to_string(&joined))
    }

    /// The failure for a format that is not extractable: a distinct error for
    /// a planned-but-unimplemented suffix and for an unrecognized one.
    pub fn unsupported(&self, extension: String, planned: bool) -> (r: ExtractError)
        ensures
            planned ==> (r matches ExtractError::PlannedNotImplemented(s) && s@ == extension@),
            !planned ==> (r matches ExtractError::UnsupportedFormat(s) && s@ == extension@),
    {
        if planned {
            ExtractError::PlannedNotImplemented(extension)
        } else {
            ExtractError::UnsupportedFormat(extension)
        }
    }

    /// Dispatches one request: resolves the format from the archive's file
    /// name, validates the destination, and runs the matching extractor over
    /// the archive bytes. Only the rar format, whose decoder streams from
    /// disk, is handed back for the caller to drive.
    pub fn process(&self, data: Vec<u8>) -> (r: Result<Extraction, ExtractError>)
        ensures
            process_post(*self, data@, r),
    {
        let arch_chars = to_chars(self.archive.as_str());
        let name_chars = file_name_chars(&arch_chars);
        let fname = chars_to_string(&name_chars);
        let fmt = resolve_format(fname.as_str());
        match fmt {
            ArchiveFormat::Unknown(ext) => Err(self.unsupported(ext, false)),
            ArchiveFormat::PlannedUnsupported(ext) => Err(self.unsupported(ext, true)),
            _ => {
                let dest = match self.get_destination() {
                    Ok(d) => d,
                    Err(e) => {
                        return Err(e);
                    },
                };
                match fmt {
                    ArchiveFormat::Tar => match extract_tar(&data) {
                        Ok(entries) => Ok(
                            Extraction::Entries(ExtractionPlan { dest_root: dest, entries }),
                        ),
                        Err(e) => Err(e),
                    },
                    ArchiveFormat::TarGz => match extract_targz(&data) {
                        Ok(entries) => Ok(
                            Extraction::Entries(ExtractionPlan { dest_root: dest, entries }),
                        ),
                        Err(e) => Err(e),
                    },
                    ArchiveFormat::SevenZip => match extract_7z(&data) {
                        Ok(entries) => Ok(
                            Extraction::Entries(ExtractionPlan { dest_root: dest, entries }),
                        ),
                        Err(e) => Err(e),
                    },
                    ArchiveFormat::TarSevenZip => match extract_tar7z(&data) {
                        Ok(entries) => Ok(
                            Extraction::Entries(ExtractionPlan { dest_root: dest, entries }),
                        ),
                        Err(e) => Err(e),
                    },
                    ArchiveFormat::Gzip => {
                        let n: usize = name_chars.len();
                        let cut: usize = if n >= 3 {
                            n - 3
                        } else {
                            0
                        };
                        let mut stem: Vec<char> = Vec::new();
                        let mut j: usize = 0;
                        while j < cut
                            invariant
                                j <= cut,
                                cut <= name_chars@.len(),
                                stem@ == name_chars@.subrange(0, j as int),
                            decreases cut - j,
                        {
                            stem.push(name_chars[j]);
                            proof {
                                assert(name_chars@.subrange(0, j + 1 as int) =~= name_chars@
                                    .subrange(0, j as int).push(name_chars@[j as int]));
                            }
                            j += 1;
                        }
                        proof {
                            assert(stem@ =~= gz_out_name(file_name_spec(self.archive@)));
                        }
                        let out_name = chars_to_string(&stem);
                        let hint_again = chars_to_string(&to_chars(self.destination.as_str()));
                        match extract_gz(out_name.as_str(), &data) {
                            Ok(entries) => Ok(
                                Extraction::Entries(
                                    ExtractionPlan { dest_root: hint_again, entries },
                                ),
                            ),
                            Err(e) => Err(e),
                        }
                    },
                    ArchiveFormat::Zip => match extract_zip(&data) {
                        Ok(entries) => Ok(
                            Extraction::Entries(ExtractionPlan { dest_root: dest, entries }),
                        ),
                        Err(e) => Err(e),
                    },
                    ArchiveFormat::Rar => Ok(Extraction::RarStream(dest)),
                    // The unextractable formats were answered above.
                    _ => {
                        proof {
                            assert(false);
                        }
                        Err(ExtractError::InvalidDestination)
                    },
                }
            },
        }
    }
}

/// What to do for one rar header: the full output path and whether it is a
/// directory to create rather than a file to extract.
pub struct RarStep {
    pub path: String,
    pub is_dir: bool,
}

/// Plans one rar entry: the same path-safety rule as every other format
/// decides whether the entry is written at all, and where.
pub fn rar_entry_plan(dest_root: &str, name: &str, is_file: bool) -> (r: Option<RarStep>)
    ensures
        is_safe_name(name@) ==> (r matches Some(s) && s.path@ == join_path(dest_root@, name@)
            && s.is_dir == !is_file),
        !is_safe_name(name@) ==> r is None,
{
    let name_chars = to_chars(name);
    if !is_safe_entry_name(&name_chars) {
        return None;
    }
    let root_chars = to_chars(dest_root);
    let joined = join_path_chars(&root_chars, &name_chars);
    Some(RarStep { path: chars_to_string(&joined), is_dir: !is_file })
}

/// Every path a tar plan holds is a safe entry name: tar extraction writes
/// only inside the destination it is joined to.
pub proof fn lemma_tar_plan_safe(es: Seq<(Seq<char>, Seq<u8>, bool, u32)>)
    ensures
        forall|j: int|
            0 <= j < tar_plan(es).len() ==> is_safe_name(#[trigger] tar_plan(es)[j].path),
    decreases es.len(),
{
    if es.len() > 0 {
        lemma_tar_plan_safe(es.drop_last());
    }
}

/// Every path a zip plan holds is a safe entry name: an entry whose name
/// would escape the destination is never planned, and skipping it does not
/// fail the extraction.
pub proof fn lemma_zip_plan_safe(es: Seq<(Seq<char>, Seq<u8>, Option<u32>, Seq<char>)>)
    ensures
        forall|j: int|
            0 <= j < zip_plan(es).len() ==> is_safe_name(#[trigger] zip_plan(es)[j].path),
    decreases es.len(),
{
    if es.len() > 0 {
        lemma_zip_plan_safe(es.drop_last());
    }
}

/// Every path a 7z plan holds is a safe entry name.
pub proof fn lemma_sevenz_plan_safe(es: Seq<(Seq<char>, Seq<u8>, bool)>)
    ensures
        forall|j: int|
            0 <= j < sevenz_plan(es).len() ==> is_safe_name(#[trigger] sevenz_plan(es)[j].path),
    decreases es.len(),
{
    if es.len() > 0 {
        lemma_sevenz_plan_safe(es.drop_last());
    }
}

/// A tar entry sequence of safe names alone is reproduced whole: the plan
/// keeps every entry's name, kind, contents and mode, in order.
pub proof fn lemma_tar_plan_complete(es: Seq<(Seq<char>, Seq<u8>, bool, u32)>)
    requires
        forall|k: int| 0 <= k < es.len() ==> is_safe_name((#[trigger] es[k]).0),
    ensures
        tar_plan(es).len() == es.len(),
        forall|k: int|
            0 <= k < es.len() ==> #[trigger] tar_plan(es)[k] == (PlanEntrySpec {
                path: es[k].0,
                is_dir: es[k].2,
                data: es[k].1,
                mode: Some(es[k].3),
                note: None,
            }),
    decreases es.len(),
{
    if es.len() > 0 {
        assert forall|k: int|
            0 <= k < es.drop_last().len() implies is_safe_name(
            (#[trigger] es.drop_last()[k]).0,
        ) by {
            assert(es.drop_last()[k] == es[k]);
        }
        lemma_tar_plan_complete(es.drop_last());
        assert forall|k: int|
            0 <= k < es.len() implies #[trigger] tar_plan(es)[k] == (PlanEntrySpec {
            path: es[k].0,
            is_dir: es[k].2,
            data: es[k].1,
            mode: Some(es[k].3),
            note: None,
        }) by {
            if k < es.len() - 1 {
                assert(tar_plan(es)[k] == tar_plan(es.drop_last())[k]);
                assert(es.drop_last()[k] == es[k]);
            }
        }
    }
}

/// A zip entry sequence of safe names alone is reproduced whole: the plan
/// keeps every entry's name, kind, contents, mode and comment, in order.
pub proof fn lemma_zip_plan_complete(es: Seq<(Seq<char>, Seq<u8>, Option<u32>, Seq<char>)>)
    requires
        forall|k: int| 0 <= k < es.len() ==> is_safe_name((#[trigger] es[k]).0),
    ensures
        zip_plan(es).len() == es.len(),
        forall|k: int|
            0 <= k < es.len() ==> #[trigger] zip_plan(es)[k] == (PlanEntrySpec {
                path: es[k].0,
                is_dir: es[k].0.len() > 0 && es[k].0[es[k].0.len() - 1] == '/',
                data: es[k].1,
                mode: es[k].2,
                note: if es[k].3.len() > 0 {
                    Some(es[k].3)
                } else {
                    None
                },
            }),
    decreases es.len(),
{
    if es.len() > 0 {
        assert forall|k: int|
            0 <= k < es.drop_last().len() implies is_safe_name(
            (#[trigger] es.drop_last()[k]).0,
        ) by {
            assert(es.drop_last()[k] == es[k]);
        }
        lemma_zip_plan_complete(es.drop_last());
        assert forall|k: int|
            0 <= k < es.len() implies #[trigger] zip_plan(es)[k] == (PlanEntrySpec {
            path: es[k].0,
            is_dir: es[k].0.len() > 0 && es[k].0[es[k].0.len() - 1] == '/',
            data: es[k].1,
            mode: es[k].2,
            note: if es[k].3.len() > 0 {
                Some(es[k].3)
            } else {
                None
            },
        }) by {
            if k < es.len() - 1 {
                assert(zip_plan(es)[k] == zip_plan(es.drop_last())[k]);
                assert(es.drop_last()[k] == es[k]);
            }
        }
    }
}

/// A 7z entry sequence of safe names alone is reproduced whole.
pub proof fn lemma_sevenz_plan_complete(es: Seq<(Seq<char>, Seq<u8>, bool)>)
    requires
        forall|k: int| 0 <= k < es.len() ==> is_safe_name((#[trigger] es[k]).0),
    ensures
        sevenz_plan(es).len() == es.len(),
        forall|k: int|
            0 <= k < es.len() ==> #[trigger] sevenz_plan(es)[k] == (PlanEntrySpec {
                path: es[k].0,
                is_dir: es[k].2,
                data: es[k].1,
                mode: None,
                note: None,
            }),
    decreases es.len(),
{
    if es.len() > 0 {
        assert forall|k: int|
            0 <= k < es.drop_last().len() implies is_safe_name(
            (#[trigger] es.drop_last()[k]).0,
        ) by {
            assert(es.drop_last()[k] == es[k]);
        }
        lemma_sevenz_plan_complete(es.drop_last());
        assert forall|k: int|
            0 <= k < es.len() implies #[trigger] sevenz_plan(es)[k] == (PlanEntrySpec {
            path: es[k].0,
            is_dir: es[k].2,
            data: es[k].1,
            mode: None,
            note: None,
        }) by {
            if k < es.len() - 1 {
                assert(sevenz_plan(es)[k] == sevenz_plan(es.drop_last())[k]);
                assert(es.drop_last()[k] == es[k]);
            }
        }
    }
}

/// A scan that finds a tar member with none before it has found the first.
proof fn lemma_first_tar_from(es: Seq<(Seq<char>, Seq<u8>, bool)>, i: int, k: int)
    requires
        0 <= i <= k < es.len(),
        is_tar_member(es[k]),
        forall|j: int| i <= j < k ==> !is_tar_member(#[trigger] es[j]),
    ensures
        first_tar_index_from(es, i) == k,
    decreases k - i,
{
    if i < k {
        lemma_first_tar_from(es, i + 1, k);
    }
}

/// Given a 7z whose entries hold exactly one tar member, the nested
/// tar-in-7z extraction yields exactly what extracting that member directly
/// as a tar archive yields.
pub proof fn lemma_nested_matches_direct(
    data: Seq<u8>,
    es: Seq<(Seq<char>, Seq<u8>, bool)>,
    k: int,
)
    requires
        sevenz_entries(data) == Some(es),
        0 <= k < es.len(),
        is_tar_member(es[k]),
        forall|j: int| 0 <= j < es.len() && j != k ==> !is_tar_member(#[trigger] es[j]),
    ensures
        tar7z_extract_result(data) == tar_extract_result(es[k].1),
{
    lemma_first_tar_from(es, 0, k);
}

} // verus!
