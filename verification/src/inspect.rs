//! The Archive Inspector: reads the checksum that an archive records for
//! its first data-bearing entry, without extracting.  The container
//! formats are dispatched on the (lower-cased) filename extension.  The
//! zip reader is an outside library behind a trusted wrapper; the 7z
//! header parser can panic on crafted headers, so it is not called from
//! the library at all — the caller parses behind its own panic boundary
//! and hands in the plain entry listing.  Everything else — dispatch,
//! entry selection, hex rendering — is verified.

use vstd::prelude::*;

use crate::text::{chars_of, lower_char, lower_seq, string_of_chars, to_lower};

verus! {

/// The archive container formats the library understands.
#[derive(Clone, Copy, PartialEq, Eq, Structural, Debug)]
pub enum ArchiveKind {
    SevenZ,
    Zip,
}

/// Why no checksum could be read from an archive.
#[derive(Clone, Copy, PartialEq, Eq, Structural, Debug)]
pub enum InspectError {
    /// The archive is readable but holds no data-bearing entry with a
    /// recorded checksum.
    NotFound,
    /// The bytes do not parse as an archive of the named format.
    CorruptArchive,
    /// The filename extension names no supported container format.
    UnsupportedFormat,
}

/// `i` splits `name` into a stem and an extension: `name[i]` is the last
/// dot, a slash neither follows it nor immediately precedes it, and it is
/// not the first character.
pub open spec fn ext_split_at(name: Seq<char>, i: int) -> bool {
    &&& 0 < i < name.len()
    &&& name[i] == '.'
    &&& name[i - 1] != '/'
    &&& forall|j: int| i < j < name.len() ==> name[j] != '.' && name[j] != '/'
}

/// The extension of `name`, when it has one.
pub open spec fn spec_extension(name: Seq<char>) -> Option<Seq<char>> {
    if exists|i: int| ext_split_at(name, i) {
        Some(name.skip((choose|i: int| ext_split_at(name, i)) + 1))
    } else {
        None
    }
}

/// The container format that `name`'s extension names, if any; the
/// comparison is case-insensitive.
pub open spec fn spec_archive_kind(name: Seq<char>) -> Option<ArchiveKind> {
    match spec_extension(name) {
        None => None,
        Some(e) => {
            let ext = lower_seq(e);
            if ext == "7z"@ {
                Some(ArchiveKind::SevenZ)
            } else if ext == "zip"@ {
                Some(ArchiveKind::Zip)
            } else {
                None
            }
        },
    }
}

/// Two positions that both split off the extension are the same position.
proof fn lemma_ext_split_unique(name: Seq<char>, i: int, j: int)
    requires
        ext_split_at(name, i),
        ext_split_at(name, j),
    ensures
        i == j,
{
    if i < j {
        assert(name[j] == '.');
    } else if j < i {
        assert(name[i] == '.');
    }
}

/// The position of the extension split, scanning from the end.
fn find_ext_split(v: &Vec<char>) -> (r: Option<usize>)
    ensures
        match r {
            Some(p) => ext_split_at(v@, p as int),
            None => forall|i: int| !ext_split_at(v@, i),
        },
{
    let n = v.len();
    let mut k: usize = n;
    loop
        invariant
            n == v@.len(),
            k <= n,
            forall|j: int| k <= j < n ==> v@[j] != '.' && v@[j] != '/',
        ensures
            k == 0 ==> forall|j: int| 0 <= j < n ==> v@[j] != '.' && v@[j] != '/',
            k > 0 ==> k <= n && (v@[k - 1] == '.' || v@[k - 1] == '/') && forall|j: int|
                k <= j < n ==> v@[j] != '.' && v@[j] != '/',
        decreases k,
    {
        if k == 0 {
            break;
        }
        if v[k - 1] == '.' || v[k - 1] == '/' {
            break;
        }
        k = k - 1;
    }
    if k == 0 {
        proof {
            assert(forall|i: int| !ext_split_at(v@, i));
        }
        return None;
    }
    if v[k - 1] == '/' {
        proof {
            assert forall|i: int| !ext_split_at(v@, i) by {
                if ext_split_at(v@, i) {
                    assert(v@[i] == '.');
                    assert(i < k - 1);
                    assert(v@[k - 1] != '/');
                }
            }
        }
        return None;
    }
    // v[k - 1] is the last dot or slash and it is a dot.
    if k == 1 {
        proof {
            assert forall|i: int| !ext_split_at(v@, i) by {
                if ext_split_at(v@, i) {
                    assert(v@[i] == '.');
                    assert(i == 0);
                }
            }
        }
        return None;
    }
    if v[k - 2] == '/' {
        proof {
            assert forall|i: int| !ext_split_at(v@, i) by {
                if ext_split_at(v@, i) {
                    assert(v@[i] == '.');
                    assert(i == k - 1);
                }
            }
        }
        return None;
    }
    proof {
        assert(ext_split_at(v@, k - 1));
    }
    Some(k - 1)
}

/// Compares `v` with a two- or three-character word given as chars.
fn chars_eq(v: &Vec<char>, w: &Vec<char>) -> (r: bool)
    ensures
        r == (v@ == w@),
{
    if v.len() != w.len() {
        return false;
    }
    let mut i: usize = 0;
    while i < v.len()
        invariant
            v@.len() == w@.len(),
            i <= v@.len(),
            forall|k: int| 0 <= k < i ==> v@[k] == w@[k],
        decreases v@.len() - i,
    {
        if v[i] != w[i] {
            return false;
        }
        i = i + 1;
    }
    proof {
        assert(v@ =~= w@);
    }
    true
}

/// The container format that `name` names, if any.
pub fn archive_kind(name: &str) -> (r: Option<ArchiveKind>)
    ensures
        r == spec_archive_kind(name@),
{
    let v = chars_of(name);
    let split = find_ext_split(&v);
    match split {
        None => None,
        Some(p) => {
            let n = v.len();
            let mut ext: Vec<char> = Vec::new();
            let mut i: usize = p + 1;
            while i < n
                invariant
                    p + 1 <= i <= n,
                    n == v@.len(),
                    ext@ == lower_seq(v@.skip(p + 1).take(i - p - 1)),
                decreases n - i,
            {
                ext.push(to_lower(v[i]));
                i = i + 1;
                proof {
                    let s = v@.skip(p + 1);
                    assert(lower_seq(s.take(i - p - 1))
                        =~= lower_seq(s.take(i - p - 2)).push(lower_char(s[i - p - 2])));
                }
            }
            proof {
                assert(v@.skip(p + 1).take(n - p - 1) =~= v@.skip(p + 1));
                let w = choose|i: int| ext_split_at(v@, i);
                lemma_ext_split_unique(v@, w, p as int);
            }
            let seven = chars_of("7z");
            let zipw = chars_of("zip");
            if chars_eq(&ext, &seven) {
                Some(ArchiveKind::SevenZ)
            } else if chars_eq(&ext, &zipw) {
                Some(ArchiveKind::Zip)
            } else {
                None
            }
        },
    }
}

/// A staging name — any name with `.pending` appended — is never a
/// supported archive: its extension is `pending`, which names no format.
pub proof fn lemma_pending_never_archive(name: Seq<char>)
    ensures
        spec_archive_kind(crate::filename::spec_pending_name(name)) is None,
{
    reveal_strlit(".pending");
    reveal_strlit("pending");
    reveal_strlit("7z");
    reveal_strlit("zip");
    let t = crate::filename::spec_pending_name(name);
    assert(t.len() == name.len() + 8);
    assert(t[name.len() as int] == '.');
    if exists|i: int| ext_split_at(t, i) {
        let i = choose|i: int| ext_split_at(t, i);
        assert(i >= name.len()) by {
            if i < name.len() {
                assert(t[name.len() as int] == '.');
            }
        }
        assert(forall|j: int| name.len() < j < t.len() ==> t[j] != '.');
        assert(i == name.len());
        let e = t.skip(i + 1);
        assert(e =~= "pending"@);
        assert(lower_seq(e) =~= "pending"@) by {
            assert forall|k: int| 0 <= k < 7 implies lower_seq(e)[k] == "pending"@[k] by {
                assert(lower_char('p') == 'p');
                assert(lower_char('e') == 'e');
                assert(lower_char('n') == 'n');
                assert(lower_char('d') == 'd');
                assert(lower_char('i') == 'i');
                assert(lower_char('g') == 'g');
            }
        }
        assert(lower_seq(e).len() == 7);
        assert(lower_seq(e) != "7z"@);
        assert(lower_seq(e) != "zip"@);
    }
}

/// The recorded checksum of the first 7z entry that carries a data
/// stream, is not a directory, and records a nonzero checksum.
pub open spec fn first_sevenz_crc(es: Seq<(bool, bool, u32)>) -> Option<u32>
    decreases es.len(),
{
    if es.len() == 0 {
        None
    } else if es[0].0 && !es[0].1 && es[0].2 != 0 {
        Some(es[0].2)
    } else {
        first_sevenz_crc(es.skip(1))
    }
}

/// The recorded checksum of the first zip entry that is not a directory
/// and records a nonzero checksum.
pub open spec fn first_zip_crc(es: Seq<(bool, u32)>) -> Option<u32>
    decreases es.len(),
{
    if es.len() == 0 {
        None
    } else if !es[0].0 && es[0].1 != 0 {
        Some(es[0].1)
    } else {
        first_zip_crc(es.skip(1))
    }
}

/// For each zip entry: whether it is a directory and its recorded
/// checksum — in archive order; `None` when the bytes do not parse as a
/// zip archive.  The result depends on the bytes alone.
pub uninterp spec fn zip_entries_of(bytes: Seq<u8>) -> Option<Seq<(bool, u32)>>;

/// Relies on zip's `ZipArchive::new` to parse the central directory, and
/// on each entry's `is_dir` and recorded `crc32`; an unreadable entry
/// makes the whole archive count as unparseable.
#[verifier::external_body]
fn zip_entries(bytes: &[u8]) -> (r: Option<Vec<(bool, u32)>>)
    ensures
        match r {
            Some(v) => zip_entries_of(bytes@) == Some(v@),
            None => zip_entries_of(bytes@) is None,
        },
{
    let cursor = std::io::Cursor::new(bytes);
    let mut archive = match zip::ZipArchive::new(cursor) {
        Ok(a) => a,
        Err(_) => return None,
    };
    let mut out: Vec<(bool, u32)> = Vec::new();
    for i in 0..archive.len() {
        match archive.by_index(i) {
            Ok(e) => out.push((e.is_dir(), e.crc32())),
            Err(_) => return None,
        }
    }
    Some(out)
}

/// The first qualifying 7z checksum in a listing.
fn scan_sevenz(v: &Vec<(bool, bool, u32)>) -> (r: Option<u32>)
    ensures
        r == first_sevenz_crc(v@),
{
    let mut i: usize = 0;
    proof {
        assert(v@.skip(0) =~= v@);
    }
    while i < v.len()
        invariant
            i <= v@.len(),
            first_sevenz_crc(v@) == first_sevenz_crc(v@.skip(i as int)),
        decreases v@.len() - i,
    {
        let (has_stream, is_dir, crc) = v[i];
        proof {
            assert(v@.skip(i as int)[0] == v@[i as int]);
            assert(v@.skip(i as int).skip(1) =~= v@.skip(i + 1));
        }
        if has_stream && !is_dir && crc != 0 {
            return Some(crc);
        }
        i = i + 1;
    }
    None
}

/// The first qualifying zip checksum in a listing.
fn scan_zip(v: &Vec<(bool, u32)>) -> (r: Option<u32>)
    ensures
        r == first_zip_crc(v@),
{
    let mut i: usize = 0;
    proof {
        assert(v@.skip(0) =~= v@);
    }
    while i < v.len()
        invariant
            i <= v@.len(),
            first_zip_crc(v@) == first_zip_crc(v@.skip(i as int)),
        decreases v@.len() - i,
    {
        let (is_dir, crc) = v[i];
        proof {
            assert(v@.skip(i as int)[0] == v@[i as int]);
            assert(v@.skip(i as int).skip(1) =~= v@.skip(i + 1));
        }
        if !is_dir && crc != 0 {
            return Some(crc);
        }
        i = i + 1;
    }
    None
}

/// The hex digit for a value below sixteen.
pub open spec fn hex_digit(d: int) -> char {
    if d < 10 {
        ((d + 48) as u8) as char
    } else {
        ((d + 87) as u8) as char
    }
}

/// The hex digits of `n`, most significant first, without leading zeros.
pub open spec fn hex_seq(n: int) -> Seq<char>
    decreases n,
{
    if n < 16 {
        seq![hex_digit(if n >= 0 { n } else { 0 })]
    } else {
        hex_seq(n / 16) + seq![hex_digit(n % 16)]
    }
}

/// The hex rendering of a recorded checksum: lower case, left-padded with
/// zeros to at least eight digits.
pub open spec fn spec_crc_hex(n: u64) -> Seq<char> {
    let digits = hex_seq(n as int);
    if digits.len() >= 8 {
        digits
    } else {
        Seq::new((8 - digits.len()) as nat, |i: int| '0') + digits
    }
}

/// Sixteen to the `k`-th power.
pub open spec fn exp16(k: nat) -> int
    decreases k,
{
    if k == 0 {
        1
    } else {
        16 * exp16((k - 1) as nat)
    }
}

/// A value below sixteen to the `k`-th renders in at most `k` digits.
proof fn lemma_hex_seq_len_bound(n: int, k: nat)
    requires
        0 <= n,
        1 <= k,
        n < exp16(k),
    ensures
        hex_seq(n).len() <= k,
    decreases k,
{
    if n >= 16 {
        assert(exp16(k) == 16 * exp16((k - 1) as nat));
        lemma_hex_seq_len_bound(n / 16, (k - 1) as nat);
    }
}

/// A checksum recorded in 32 bits renders as exactly eight digits.
pub proof fn lemma_crc_hex_eight_digits(n: u64)
    requires
        n < 0x1_0000_0000,
    ensures
        spec_crc_hex(n).len() == 8,
{
    assert(exp16(8) == 0x1_0000_0000) by {
        assert(exp16(0) == 1);
        assert(exp16(1) == 16);
        assert(exp16(2) == 0x100);
        assert(exp16(3) == 0x1000);
        assert(exp16(4) == 0x1_0000);
        assert(exp16(5) == 0x10_0000);
        assert(exp16(6) == 0x100_0000);
        assert(exp16(7) == 0x1000_0000);
    }
    lemma_hex_seq_len_bound(n as int, 8);
}

/// The hex digits of `n`, most significant first.
fn hex_digits(n: u64) -> (r: Vec<char>)
    ensures
        r@ == hex_seq(n as int),
        r@.len() >= 1,
    decreases n,
{
    let d = (n % 16) as u8;
    let c = if d < 10 {
        (d + 48) as char
    } else {
        (d + 87) as char
    };
    if n < 16 {
        let mut r: Vec<char> = Vec::new();
        r.push(c);
        proof {
            assert(r@ =~= seq![hex_digit(n as int)]);
        }
        r
    } else {
        let mut r = hex_digits(n / 16);
        r.push(c);
        proof {
            assert(r@ =~= hex_seq((n / 16) as int) + seq![hex_digit(n as int % 16)]);
        }
        r
    }
}

/// The checksum rendered as lower-case hex, eight digits or more.
pub fn crc_hex(n: u64) -> (r: String)
    ensures
        r@ == spec_crc_hex(n),
{
    let digits = hex_digits(n);
    let mut out: Vec<char> = Vec::new();
    let mut pad: usize = 0;
    let need: usize = if digits.len() >= 8 {
        0
    } else {
        8 - digits.len()
    };
    while pad < need
        invariant
            pad <= need,
            out@ == Seq::new(pad as nat, |i: int| '0'),
        decreases need - pad,
    {
        out.push('0');
        pad = pad + 1;
        proof {
            assert(out@ =~= Seq::new(pad as nat, |i: int| '0'));
        }
    }
    let mut i: usize = 0;
    while i < digits.len()
        invariant
            need == out@.len() - i,
            i <= digits@.len(),
            out@ == Seq::new(need as nat, |k: int| '0') + digits@.take(i as int),
        decreases digits@.len() - i,
    {
        out.push(digits[i]);
        i = i + 1;
        proof {
            assert(out@ =~= Seq::new(need as nat, |k: int| '0') + digits@.take(i as int));
        }
    }
    proof {
        assert(digits@.take(digits@.len() as int) =~= digits@);
        if digits@.len() >= 8 {
            assert(out@ =~= digits@);
        }
    }
    string_of_chars(&out)
}

/// The checksum a 7z header records for its first data-bearing entry,
/// given the header's entry listing: for each entry, whether it carries
/// a data stream, whether it is a directory, and its recorded checksum.
///
/// The 7z header parse itself happens outside the library — its parser
/// can panic on crafted headers, so it must run behind the caller's
/// panic boundary — and this function judges whatever listing came out
/// of it.  A reported checksum is exactly eight lower-case hex digits.
pub fn crc_from_sevenz_entries(entries: &Vec<(bool, bool, u32)>) -> (r: Result<
    String,
    InspectError,
>)
    ensures
        r matches Ok(s) ==> s@.len() == 8,
        match first_sevenz_crc(entries@) {
            None => r == Err::<String, InspectError>(InspectError::NotFound),
            Some(c) => r is Ok && r->Ok_0@ == spec_crc_hex(c as u64),
        },
{
    match scan_sevenz(entries) {
        None => Err(InspectError::NotFound),
        Some(c) => {
            proof {
                lemma_crc_hex_eight_digits(c as u64);
            }
            Ok(crc_hex(c as u64))
        },
    }
}

/// The checksum an archive records for its first data-bearing entry.
///
/// The format is chosen by the filename extension.  Zip bytes are parsed
/// here; the 7z header listing arrives pre-parsed in `sevenz_header`
/// (see `crc_from_sevenz_entries` for why), with `None` standing for a
/// header the caller could not read.  Unreadable bytes are
/// `CorruptArchive`; a readable archive with no qualifying entry is
/// `NotFound`.  A reported checksum is always exactly eight lower-case
/// hex digits, since both formats record it in 32 bits.
pub fn get_crc_from_archive(
    name: &str,
    bytes: &[u8],
    sevenz_header: Option<&Vec<(bool, bool, u32)>>,
) -> (r: Result<String, InspectError>)
    ensures
        r matches Ok(s) ==> s@.len() == 8,
        match spec_archive_kind(name@) {
            None => r == Err::<String, InspectError>(InspectError::UnsupportedFormat),
            Some(ArchiveKind::SevenZ) => match sevenz_header {
                None => r == Err::<String, InspectError>(InspectError::CorruptArchive),
                Some(es) => match first_sevenz_crc(es@) {
                    None => r == Err::<String, InspectError>(InspectError::NotFound),
                    Some(c) => r is Ok && r->Ok_0@ == spec_crc_hex(c as u64),
                },
            },
            Some(ArchiveKind::Zip) => match zip_entries_of(bytes@) {
                None => r == Err::<String, InspectError>(InspectError::CorruptArchive),
                Some(es) => match first_zip_crc(es) {
                    None => r == Err::<String, InspectError>(InspectError::NotFound),
                    Some(c) => r is Ok && r->Ok_0@ == spec_crc_hex(c as u64),
                },
            },
        },
{
    match archive_kind(name) {
        None => Err(InspectError::UnsupportedFormat),
        Some(ArchiveKind::SevenZ) => match sevenz_header {
            None => Err(InspectError::CorruptArchive),
            Some(es) => crc_from_sevenz_entries(es),
        },
        Some(ArchiveKind::Zip) => match zip_entries(bytes) {
            None => Err(InspectError::CorruptArchive),
            Some(es) => match scan_zip(&es) {
                None => Err(InspectError::NotFound),
                Some(c) => {
                    proof {
                        lemma_crc_hex_eight_digits(c as u64);
                    }
                    Ok(crc_hex(c as u64))
                },
            },
        },
    }
}

} // verus!
