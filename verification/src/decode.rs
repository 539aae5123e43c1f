use vstd::prelude::*;

use crate::error::ExtractError;

verus! {

// The decoder crates' reader types appear in signatures below, so Verus must
// know them; both are opaque to it.
#[verifier::external_type_specification]
#[verifier::external_body]
#[verifier::reject_recursive_types(T)]
pub struct ExCursor<T>(std::io::Cursor<T>);

#[verifier::external_type_specification]
#[verifier::external_body]
#[verifier::reject_recursive_types(R)]
pub struct ExZipArchive<R>(zip::ZipArchive<R>);

/// What decompressing a gzip stream yields: a pure function of the compressed
/// bytes; `None` where they are not a well-formed gzip stream.
pub uninterp spec fn gzip_plain(data: Seq<u8>) -> Option<Seq<u8>>;

/// What parsing a tar archive yields, entry by entry in stream order, each as
/// (name, contents, is-directory, mode); `None` where the bytes are not a
/// well-formed tar archive.
pub uninterp spec fn tar_entries(data: Seq<u8>) -> Option<Seq<(Seq<char>, Seq<u8>, bool, u32)>>;

/// What parsing a zip archive's central directory yields, entry by entry in
/// index order, each as (name, contents, unix mode, comment); `None` where
/// the bytes are not a well-formed zip archive. The decoder keys its
/// directory by entry name, so same-named entries appear once, with the
/// later one's data kept.
pub uninterp spec fn zip_entries(data: Seq<u8>) -> Option<
    Seq<(Seq<char>, Seq<u8>, Option<u32>, Seq<char>)>,
>;

/// The entries an opened zip archive holds, in index order.
pub uninterp spec fn zip_contents(a: zip::ZipArchive<std::io::Cursor<Vec<u8>>>) -> Seq<
    (Seq<char>, Seq<u8>, Option<u32>, Seq<char>),
>;

/// Whether entry `i` of the zip archive the bytes parse to decodes cleanly:
/// a pure function of the archive bytes and the index.
pub uninterp spec fn zip_entry_ok(data: Seq<u8>, i: int) -> bool;

/// Whether entry `i` of an opened zip archive decodes cleanly.
pub uninterp spec fn zip_idx_ok(a: zip::ZipArchive<std::io::Cursor<Vec<u8>>>, i: int) -> bool;

/// What decoding a 7z archive yields, entry by entry in the decoder's block
/// order, each as (name, contents, is-directory); `None` where the bytes are
/// not a well-formed 7z archive.
pub uninterp spec fn sevenz_entries(data: Seq<u8>) -> Option<Seq<(Seq<char>, Seq<u8>, bool)>>;

/// One tar entry as handed over by the decoder.
pub struct TarEntry {
    pub name: String,
    pub data: Vec<u8>,
    pub is_dir: bool,
    pub mode: u32,
}

impl View for TarEntry {
    type V = (Seq<char>, Seq<u8>, bool, u32);

    open spec fn view(&self) -> (Seq<char>, Seq<u8>, bool, u32) {
        (self.name@, self.data@, self.is_dir, self.mode)
    }
}

/// One zip entry as handed over by the decoder.
pub struct ZipEntry {
    pub name: String,
    pub data: Vec<u8>,
    pub mode: Option<u32>,
    pub comment: String,
}

impl View for ZipEntry {
    type V = (Seq<char>, Seq<u8>, Option<u32>, Seq<char>);

    open spec fn view(&self) -> (Seq<char>, Seq<u8>, Option<u32>, Seq<char>) {
        (self.name@, self.data@, self.mode, self.comment@)
    }
}

/// One 7z entry as handed over by the decoder.
pub struct SevenZEntry {
    pub name: String,
    pub data: Vec<u8>,
    pub is_dir: bool,
}

impl View for SevenZEntry {
    type V = (Seq<char>, Seq<u8>, bool);

    open spec fn view(&self) -> (Seq<char>, Seq<u8>, bool) {
        (self.name@, self.data@, self.is_dir)
    }
}

/// The element-wise views of decoded entry vectors.
pub open spec fn tar_view(v: Seq<TarEntry>) -> Seq<(Seq<char>, Seq<u8>, bool, u32)> {
    v.map_values(|e: TarEntry| e@)
}

pub open spec fn sevenz_view(v: Seq<SevenZEntry>) -> Seq<(Seq<char>, Seq<u8>, bool)> {
    v.map_values(|e: SevenZEntry| e@)
}

// The decoders hand errors out as values of their own types; only the
// failure text is kept of them, behind one converter per error type.
#[verifier::external_type_specification]
#[verifier::external_body]
pub struct ExIoError(std::io::Error);

#[verifier::external_type_specification]
#[verifier::external_body]
pub struct ExZipError(zip::result::ZipError);

#[verifier::external_type_specification]
#[verifier::external_body]
pub struct ExSevenZError(sevenz_rust2::Error);

/// Relies on `std::io::Error`'s failure text alone: the outside error value
/// becomes this library's own failure kind.
#[verifier::external_body]
pub(crate) fn io_err(e: std::io::Error) -> (r: ExtractError)
    ensures
        r is IoFailure,
{
    ExtractError::IoFailure(format!("{e}"))
}

/// Relies on `zip::result::ZipError`'s failure text alone.
#[verifier::external_body]
pub(crate) fn zip_err(e: zip::result::ZipError) -> (r: ExtractError)
    ensures
        r is IoFailure,
{
    ExtractError::IoFailure(format!("{e}"))
}

/// Relies on `sevenz_rust2::Error`'s failure text alone.
#[verifier::external_body]
pub(crate) fn sz_err(e: sevenz_rust2::Error) -> (r: ExtractError)
    ensures
        r is IoFailure,
{
    ExtractError::IoFailure(format!("{e}"))
}

/// Relies on `flate2::read::GzDecoder`: reading it to the end yields the
/// whole decompressed stream, a function of the compressed bytes alone.
#[verifier::external_body]
pub(crate) fn gz_decode(data: &Vec<u8>) -> (r: Result<Vec<u8>, ExtractError>)
    ensures
        match r {
            Ok(v) => gzip_plain(data@) == Some(v@),
            Err(e) => gzip_plain(data@) is None && e is IoFailure,
        },
{
    let mut decoder = flate2::read::GzDecoder::new(data.as_slice());
    let mut out: Vec<u8> = Vec::new();
    std::io::Read::read_to_end(&mut decoder, &mut out).map_err(io_err)?;
    Ok(out)
}

/// Relies on `tar::Archive::entries`: iterating the streaming reader yields
/// every entry with its path bytes, contents, type and mode, all a function
/// of the archive bytes alone.
#[verifier::external_body]
pub(crate) fn tar_list(data: &Vec<u8>) -> (r: Result<Vec<TarEntry>, ExtractError>)
    ensures
        match r {
            Ok(v) => tar_entries(data@) == Some(tar_view(v@)),
            Err(e) => tar_entries(data@) is None && e is IoFailure,
        },
{
    let mut archive = tar::Archive::new(data.as_slice());
    let mut out: Vec<TarEntry> = Vec::new();
    for entry in archive.entries().map_err(io_err)? {
        let mut en = entry.map_err(io_err)?;
        let name = String::from_utf8_lossy(&en.path_bytes()).into_owned();
        let is_dir = en.header().entry_type().is_dir();
        let mode = en.header().mode().unwrap_or(0);
        let mut d: Vec<u8> = Vec::new();
        std::io::Read::read_to_end(&mut en, &mut d).map_err(io_err)?;
        out.push(TarEntry { name, data: d, is_dir, mode });
    }
    Ok(out)
}

/// Relies on `zip::ZipArchive::new`: reading the central directory of the
/// given bytes, a function of those bytes alone; which entries will decode
/// is a function of the same bytes.
#[verifier::external_body]
pub(crate) fn zip_open(data: &Vec<u8>) -> (r: Result<
    zip::ZipArchive<std::io::Cursor<Vec<u8>>>,
    ExtractError,
>)
    ensures
        match r {
            Ok(a) => zip_entries(data@) == Some(zip_contents(a)) && forall|i: int|
                #[trigger] zip_idx_ok(a, i) == zip_entry_ok(data@, i),
            Err(e) => zip_entries(data@) is None && e is IoFailure,
        },
{
    zip::ZipArchive::new(std::io::Cursor::new(data.clone())).map_err(zip_err)
}

/// Relies on `zip::ZipArchive::len`: the number of entries in the archive.
#[verifier::external_body]
pub(crate) fn zip_len(a: &zip::ZipArchive<std::io::Cursor<Vec<u8>>>) -> (n: usize)
    ensures
        n == zip_contents(*a).len(),
{
    a.len()
}

/// Relies on `zip::ZipArchive::by_index`: it hands out entry `i` with its
/// name, decompressed contents, unix mode and comment, succeeding exactly
/// when that entry decodes; it seeks to absolute offsets, so neither the
/// entry set nor what decodes is changed by the call.
#[verifier::external_body]
pub(crate) fn zip_by_index(a: &mut zip::ZipArchive<std::io::Cursor<Vec<u8>>>, i: usize) -> (r:
    Result<ZipEntry, ExtractError>)
    requires
        i < zip_contents(*old(a)).len(),
    ensures
        zip_contents(*final(a)) == zip_contents(*old(a)),
        forall|j: int| #[trigger] zip_idx_ok(*final(a), j) == zip_idx_ok(*old(a), j),
        r is Ok <==> zip_idx_ok(*old(a), i as int),
        match r {
            Ok(en) => en@ == zip_contents(*old(a))[i as int],
            Err(e) => e is IoFailure,
        },
{
    let mut f = a.by_index(i).map_err(zip_err)?;
    let name = f.name().to_string();
    let mode = f.unix_mode();
    let comment = f.comment().to_string();
    let mut d: Vec<u8> = Vec::new();
    std::io::Read::read_to_end(&mut f, &mut d).map_err(io_err)?;
    Ok(ZipEntry { name, data: d, mode, comment })
}

/// Relies on `sevenz_rust2::ArchiveReader::for_each_entries`: decoding walks
/// every entry with its name, contents and kind, a function of the archive
/// bytes alone.
#[verifier::external_body]
pub(crate) fn sevenz_list(data: &Vec<u8>) -> (r: Result<Vec<SevenZEntry>, ExtractError>)
    ensures
        match r {
            Ok(v) => sevenz_entries(data@) == Some(sevenz_view(v@)),
            Err(e) => sevenz_entries(data@) is None && e is IoFailure,
        },
{
    let cursor = std::io::Cursor::new(data.as_slice());
    let pw = sevenz_rust2::Password::empty();
    let mut reader = sevenz_rust2::ArchiveReader::new(cursor, pw).map_err(sz_err)?;
    let mut out: Vec<SevenZEntry> = Vec::new();
    reader.for_each_entries(|en, rd| {
        let mut d: Vec<u8> = Vec::new();
        std::io::Read::read_to_end(rd, &mut d)?;
        out.push(SevenZEntry { name: en.name().to_string(), data: d, is_dir: en.is_directory() });
        Ok(true)
    }).map_err(sz_err)?;
    Ok(out)
}

} // verus!
