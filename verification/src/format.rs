use vstd::prelude::*;

use crate::chars::{
    ends_with, has_suffix, last_index_of, last_index_of_exec, lower_seq, lower_vec, to_chars,
    chars_to_string,
};

verus! {

/// A recognized container format, derived purely from an archive's file name.
pub enum ArchiveFormat {
    Tar,
    Zip,
    Rar,
    SevenZip,
    Gzip,
    TarGz,
    TarSevenZip,
    /// A format that is recognized but whose extraction is not implemented;
    /// the payload is the matched suffix, lower-cased, without its leading dot.
    PlannedUnsupported(String),
    /// An unrecognized extension: the characters after the name's last dot,
    /// lower-cased; empty when the name has no extension at all.
    Unknown(String),
}

/// The mathematical value of an `ArchiveFormat`.
pub enum FormatSpec {
    Tar,
    Zip,
    Rar,
    SevenZip,
    Gzip,
    TarGz,
    TarSevenZip,
    Planned(Seq<char>),
    Unknown(Seq<char>),
}

impl View for ArchiveFormat {
    type V = FormatSpec;

    open spec fn view(&self) -> FormatSpec {
        match self {
            ArchiveFormat::Tar => FormatSpec::Tar,
            ArchiveFormat::Zip => FormatSpec::Zip,
            ArchiveFormat::Rar => FormatSpec::Rar,
            ArchiveFormat::SevenZip => FormatSpec::SevenZip,
            ArchiveFormat::Gzip => FormatSpec::Gzip,
            ArchiveFormat::TarGz => FormatSpec::TarGz,
            ArchiveFormat::TarSevenZip => FormatSpec::TarSevenZip,
            ArchiveFormat::PlannedUnsupported(s) => FormatSpec::Planned(s@),
            ArchiveFormat::Unknown(s) => FormatSpec::Unknown(s@),
        }
    }
}

/// The name ends, ASCII-case-insensitively, with the suffix, and at least one
/// character stands before it.
pub open spec fn suffix_matches(name: Seq<char>, suf: Seq<char>) -> bool {
    name.len() > suf.len() && has_suffix(lower_seq(name), suf)
}

/// The lower-cased characters after the last dot of the name, where that dot
/// has at least one character before it; empty otherwise.
pub open spec fn unknown_ext(name: Seq<char>) -> Seq<char> {
    let low = lower_seq(name);
    if last_index_of(low, '.') >= 1 {
        low.subrange(last_index_of(low, '.') + 1, low.len() as int)
    } else {
        Seq::<char>::empty()
    }
}

/// What an archive file name resolves to. Compound suffixes are decided
/// before the simple suffixes they end in, so `x.tar.gz` is `TarGz`, not
/// `Gzip`, and matching ignores ASCII case throughout.
pub open spec fn resolve_spec(name: Seq<char>) -> FormatSpec {
    if suffix_matches(name, ".tar.7z"@) {
        FormatSpec::TarSevenZip
    } else if suffix_matches(name, ".tar.gz"@) || suffix_matches(name, ".tgz"@) {
        FormatSpec::TarGz
    } else if suffix_matches(name, ".tar.bz2"@) {
        FormatSpec::Planned("tar.bz2"@)
    } else if suffix_matches(name, ".tbz2"@) {
        FormatSpec::Planned("tbz2"@)
    } else if suffix_matches(name, ".tbz"@) {
        FormatSpec::Planned("tbz"@)
    } else if suffix_matches(name, ".tar.xz"@) {
        FormatSpec::Planned("tar.xz"@)
    } else if suffix_matches(name, ".txz"@) {
        FormatSpec::Planned("txz"@)
    } else if suffix_matches(name, ".tar.lz4"@) {
        FormatSpec::Planned("tar.lz4"@)
    } else if suffix_matches(name, ".tlz4"@) {
        FormatSpec::Planned("tlz4"@)
    } else if suffix_matches(name, ".tar.zst"@) {
        FormatSpec::Planned("tar.zst"@)
    } else if suffix_matches(name, ".tzst"@) {
        FormatSpec::Planned("tzst"@)
    } else if suffix_matches(name, ".tar"@) {
        FormatSpec::Tar
    } else if suffix_matches(name, ".zip"@) {
        FormatSpec::Zip
    } else if suffix_matches(name, ".rar"@) {
        FormatSpec::Rar
    } else if suffix_matches(name, ".7z"@) {
        FormatSpec::SevenZip
    } else if suffix_matches(name, ".gz"@) {
        FormatSpec::Gzip
    } else if suffix_matches(name, ".bz2"@) {
        FormatSpec::Planned("bz2"@)
    } else if suffix_matches(name, ".xz"@) {
        FormatSpec::Planned("xz"@)
    } else if suffix_matches(name, ".lz4"@) {
        FormatSpec::Planned("lz4"@)
    } else if suffix_matches(name, ".zst"@) {
        FormatSpec::Planned("zst"@)
    } else {
        FormatSpec::Unknown(unknown_ext(name))
    }
}

/// Whether `low`, already lower-cased and as long as the original name, ends
/// with the literal suffix and has a character before it.
fn low_suffix_matches(low: &Vec<char>, suf: &str) -> (r: bool)
    ensures
        r == (low@.len() > suf@.len() && has_suffix(low@, suf@)),
{
    let m: usize = suf.unicode_len();
    low.len() > m && ends_with(low, suf)
}

/// Maps an archive file name to its format, by its suffixes alone; no file is
/// touched. Compound suffixes win over the simple suffixes they end in, and
/// ASCII case is ignored.
pub fn resolve_format(name: &str) -> (r: ArchiveFormat)
    ensures
        r@ == resolve_spec(name@),
{
    let chars: Vec<char> = to_chars(name);
    let low: Vec<char> = lower_vec(&chars);
    if low_suffix_matches(&low, ".tar.7z") {
        ArchiveFormat::TarSevenZip
    } else if low_suffix_matches(&low, ".tar.gz") || low_suffix_matches(&low, ".tgz") {
        ArchiveFormat::TarGz
    } else if low_suffix_matches(&low, ".tar.bz2") {
        ArchiveFormat::PlannedUnsupported(String::from_str("tar.bz2"))
    } else if low_suffix_matches(&low, ".tbz2") {
        ArchiveFormat::PlannedUnsupported(String::from_str("tbz2"))
    } else if low_suffix_matches(&low, ".tbz") {
        ArchiveFormat::PlannedUnsupported(String::from_str("tbz"))
    } else if low_suffix_matches(&low, ".tar.xz") {
        ArchiveFormat::PlannedUnsupported(String::from_str("tar.xz"))
    } else if low_suffix_matches(&low, ".txz") {
        ArchiveFormat::PlannedUnsupported(String::from_str("txz"))
    } else if low_suffix_matches(&low, ".tar.lz4") {
        ArchiveFormat::PlannedUnsupported(String::from_str("tar.lz4"))
    } else if low_suffix_matches(&low, ".tlz4") {
        ArchiveFormat::PlannedUnsupported(String::from_str("tlz4"))
    } else if low_suffix_matches(&low, ".tar.zst") {
        ArchiveFormat::PlannedUnsupported(String::from_str("tar.zst"))
    } else if low_suffix_matches(&low, ".tzst") {
        ArchiveFormat::PlannedUnsupported(String::from_str("tzst"))
    } else if low_suffix_matches(&low, ".tar") {
        ArchiveFormat::Tar
    } else if low_suffix_matches(&low, ".zip") {
        ArchiveFormat::Zip
    } else if low_suffix_matches(&low, ".rar") {
        ArchiveFormat::Rar
    } else if low_suffix_matches(&low, ".7z") {
        ArchiveFormat::SevenZip
    } else if low_suffix_matches(&low, ".gz") {
        ArchiveFormat::Gzip
    } else if low_suffix_matches(&low, ".bz2") {
        ArchiveFormat::PlannedUnsupported(String::from_str("bz2"))
    } else if low_suffix_matches(&low, ".xz") {
        ArchiveFormat::PlannedUnsupported(String::from_str("xz"))
    } else if low_suffix_matches(&low, ".lz4") {
        ArchiveFormat::PlannedUnsupported(String::from_str("lz4"))
    } else if low_suffix_matches(&low, ".zst") {
        ArchiveFormat::PlannedUnsupported(String::from_str("zst"))
    } else {
        let ext: Vec<char> = match last_index_of_exec(&low, '.') {
            Some(i) if i >= 1 => {
                let n: usize = low.len();
                let mut ext: Vec<char> = Vec::new();
                let mut j: usize = i + 1;
                while j < n
                    invariant
                        i + 1 <= j <= n,
                        n == low@.len(),
                        ext@ == low@.subrange(i + 1 as int, j as int),
                    decreases n - j,
                {
                    ext.push(low[j]);
                    proof {
                        assert(low@.subrange(i + 1 as int, j + 1 as int) =~= low@.subrange(
                            i + 1 as int,
                            j as int,
                        ).push(low@[j as int]));
                    }
                    j += 1;
                }
                ext
            },
            _ => Vec::new(),
        };
        proof {
            assert(ext@ =~= unknown_ext(name@));
        }
        ArchiveFormat::Unknown(chars_to_string(&ext))
    }
}

/// Format resolution is ASCII-case-insensitive: two names that lower-case to
/// the same characters resolve to the same format.
pub proof fn lemma_resolve_case_insensitive(a: Seq<char>, b: Seq<char>)
    requires
        lower_seq(a) == lower_seq(b),
    ensures
        resolve_spec(a) == resolve_spec(b),
{
    assert(a.len() == lower_seq(a).len());
    assert(b.len() == lower_seq(b).len());
}

} // verus!
