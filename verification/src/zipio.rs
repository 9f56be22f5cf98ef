//! The trusted boundary to the `zip` crate: an archive writer over an
//! in-memory buffer, with its contents named so that the verified
//! builder can speak about what it has written.
//!
//! With the feature set this crate selects, the writer stamps a fixed
//! timestamp on every member, so the finished byte stream is a function
//! of the members written and their options alone.

use vstd::prelude::*;
use std::io::Write;

verus! {

/// The archive writer the builder drives: a ZIP writer over a growable
/// in-memory buffer.  Opaque to the verifier; the spec functions below
/// name what it holds.
#[verifier::external_body]
pub struct MemWriter {
    inner: zip::write::ZipWriter<std::io::Cursor<Vec<u8>>>,
}

#[verifier::external_type_specification]
#[verifier::external_body]
pub struct ExZipError(zip::result::ZipError);

/// The names of the members begun on `w`, in order.
pub uninterp spec fn zip_entry_names(w: MemWriter) -> Seq<Seq<char>>;

/// The content written so far to each member of `w`, in order.
pub uninterp spec fn zip_entry_datas(w: MemWriter) -> Seq<Seq<u8>>;

/// Whether each member of `w` was begun with ZIP64 extensions.
pub uninterp spec fn zip_entry_large_flags(w: MemWriter) -> Seq<bool>;

/// The Unix permission bits each member of `w` was begun with.
pub uninterp spec fn zip_entry_modes(w: MemWriter) -> Seq<u32>;

/// Whether a member is begun on `w` and still open for content.
pub uninterp spec fn zip_member_open(w: MemWriter) -> bool;

/// A member name longer than this in UTF-8 bytes does not fit the
/// format's name-length field, and the writer refuses it.
pub const NAME_BYTES_LIMIT: u64 = 65535;

/// A member may not grow past this many bytes unless it was begun with
/// ZIP64 extensions.
pub const ZIP64_THRESHOLD: u64 = 0xFFFF_FFFF;

/// A member of `n` content bytes surely stays within the plain format
/// limit even after compression.  Deflate can expand incompressible
/// input; the compressor's own documented output bound is the input
/// plus one extra bit per byte plus a few bytes of block overhead, so
/// below this margin the compressed member cannot cross the threshold.
pub open spec fn surely_fits_plain(n: nat) -> bool {
    n + n / 8 + 1024 <= ZIP64_THRESHOLD
}

/// The UTF-8 encoding length of one character.
pub open spec fn char_utf8_len(c: char) -> nat {
    if (c as u32) < 0x80 {
        1
    } else if (c as u32) < 0x800 {
        2
    } else if (c as u32) < 0x10000 {
        3
    } else {
        4
    }
}

/// The UTF-8 encoding length of a string, in bytes.
pub open spec fn utf8_len(s: Seq<char>) -> nat
    decreases s.len(),
{
    if s.len() == 0 {
        0
    } else {
        char_utf8_len(s[0]) + utf8_len(s.drop_first())
    }
}

/// A string's UTF-8 form takes at most four bytes per character.
pub proof fn lemma_utf8_len_bound(s: Seq<char>)
    ensures
        utf8_len(s) <= 4 * s.len(),
    decreases s.len(),
{
    if s.len() > 0 {
        lemma_utf8_len_bound(s.drop_first());
    }
}

/// The finished archive: the byte stream the writer produces for the
/// given members, deflate-compressed, with UTF-8 names.  One header
/// byte, the version-made-by system field, is chosen by the compile
/// target, so this is a function of the four arguments within one
/// build of the library, not across hosts.
pub uninterp spec fn zip_archive_encoding(
    names: Seq<Seq<char>>,
    datas: Seq<Seq<u8>>,
    larges: Seq<bool>,
    modes: Seq<u32>,
) -> Seq<u8>;

/// Relies on `ZipWriter::new`: a fresh writer holds no members.
#[verifier::external_body]
pub(crate) fn zip_new() -> (w: MemWriter)
    ensures
        zip_entry_names(w) == Seq::<Seq<char>>::empty(),
        zip_entry_datas(w) == Seq::<Seq<u8>>::empty(),
        zip_entry_large_flags(w) == Seq::<bool>::empty(),
        zip_entry_modes(w) == Seq::<u32>::empty(),
{
    MemWriter { inner: zip::write::ZipWriter::new(std::io::Cursor::new(Vec::new())) }
}

/// Relies on `ZipWriter::start_file`: on success one more member exists,
/// under the given name, deflate-compressed, with the given Unix
/// permission bits and ZIP64 choice, and no content yet.  The call
/// first finalizes the member begun before it, rewriting that member's
/// local header; without ZIP64 that rewrite refuses a compressed size
/// past the plain limit.  Writing goes to memory, so on a fresh name
/// within the name-length field the call succeeds, provided the member
/// before it (if any) carries the ZIP64 flag or is surely within the
/// plain limit after compression.
#[verifier::external_body]
pub(crate) fn zip_begin_member(w: &mut MemWriter, name: &String, mode: u32, large: bool) -> (r:
    Result<(), zip::result::ZipError>)
    ensures
        r is Ok ==> zip_entry_names(*final(w)) == zip_entry_names(*old(w)).push(name@),
        r is Ok ==> zip_entry_datas(*final(w)) == zip_entry_datas(*old(w)).push(
            Seq::<u8>::empty(),
        ),
        r is Ok ==> zip_entry_large_flags(*final(w)) == zip_entry_large_flags(*old(w)).push(large),
        r is Ok ==> zip_entry_modes(*final(w)) == zip_entry_modes(*old(w)).push(mode),
        r is Ok ==> zip_member_open(*final(w)),
        !zip_entry_names(*old(w)).contains(name@) && utf8_len(name@) <= NAME_BYTES_LIMIT && (
        zip_entry_datas(*old(w)).len() == 0 || zip_entry_large_flags(*old(w)).last()
            || surely_fits_plain(zip_entry_datas(*old(w)).last().len())) ==> r is Ok,
{
    let options = zip::write::SimpleFileOptions::default().compression_method(
        zip::CompressionMethod::Deflated,
    ).unix_permissions(mode).large_file(large);
    w.inner.start_file(name.as_str(), options)
}

/// Relies on `Write::write_all` on `ZipWriter`: on success the bytes are
/// appended to the member begun last, and the member table is unchanged.
/// Writing goes to memory, so while a member is open the call fails only
/// when it would push a member begun without ZIP64 extensions past the
/// format's plain size limit.
#[verifier::external_body]
pub(crate) fn zip_append_data(w: &mut MemWriter, buf: &Vec<u8>) -> (r: Result<
    (),
    zip::result::ZipError,
>)
    requires
        zip_entry_names(*old(w)).len() > 0,
    ensures
        r is Ok ==> zip_entry_names(*final(w)) == zip_entry_names(*old(w)),
        r is Ok ==> zip_entry_large_flags(*final(w)) == zip_entry_large_flags(*old(w)),
        r is Ok ==> zip_entry_modes(*final(w)) == zip_entry_modes(*old(w)),
        r is Ok ==> zip_entry_datas(*final(w)) == zip_entry_datas(*old(w)).update(
            zip_entry_datas(*old(w)).len() - 1,
            zip_entry_datas(*old(w)).last() + buf@,
        ),
        r is Ok ==> zip_member_open(*final(w)) == zip_member_open(*old(w)),
        zip_member_open(*old(w)) && (zip_entry_large_flags(*old(w)).last() || zip_entry_datas(
            *old(w),
        ).last().len() + buf@.len() <= ZIP64_THRESHOLD) ==> r is Ok,
{
    w.inner.write_all(buf.as_slice()).map_err(zip::result::ZipError::from)
}

/// Relies on `ZipWriter::finish`: the returned bytes are the serialized
/// archive, determined by the members written.  Finishing rewrites the
/// last member's local header — refused, without ZIP64, for a
/// compressed size past the plain limit — and then writes the central
/// directory, whose size fields are clamped before narrowing; every
/// accepted name already fits the name-length field and no comments or
/// encryption are in play.  So with every member flagged large or
/// surely within the plain limit after compression, nothing can fail
/// in memory.
#[verifier::external_body]
pub(crate) fn zip_finish(w: MemWriter) -> (r: Result<Vec<u8>, zip::result::ZipError>)
    ensures
        r matches Ok(b) ==> b@ == zip_archive_encoding(
            zip_entry_names(w),
            zip_entry_datas(w),
            zip_entry_large_flags(w),
            zip_entry_modes(w),
        ),
        (forall|j: int|
            0 <= j < zip_entry_datas(w).len() ==> zip_entry_large_flags(w)[j]
                || surely_fits_plain((#[trigger] zip_entry_datas(w)[j]).len())) ==> r is Ok,
{
    w.inner.finish().map(|c| c.into_inner())
}

} // verus!
