//! The two operations of the tool: building the header for a loader image,
//! and repairing the header at the start of a disk image.

use crate::buffer::{le_bytes, lemma_le_bytes_of_word, lemma_le_word_of_bytes};
use crate::conf::HeaderConf;
use crate::crc32::{crc32, crc32_final, image_checksum, CRC_INIT, CRC_POLY};
use crate::error::Error;
use crate::spl_header::{
    decode_header, default_header, encode_header, lemma_decode_encode, HeaderView,
    UbootSplHeader, CRC_FAILED, DEF_BACKUP, DEF_VERS, SPL_HEADER_LEN,
};
use vstd::prelude::*;

verus! {

/// Upper bound on the length of a loader image: a supported image is
/// shorter than this.
pub const MAX_SPL_LEN: usize = 180048;

/// Whether a loader image of `n` bytes can get a header: it is neither
/// empty nor as long as [`MAX_SPL_LEN`].
pub open spec fn valid_spl_len(n: nat) -> bool {
    0 < n < MAX_SPL_LEN
}

/// The value that a field takes when the caller may override its default:
/// the override, unless there is none or it is zero.
pub open spec fn override_or(over: Option<u32>, default: u32) -> u32 {
    match over {
        Some(v) => if v != 0 {
            v
        } else {
            default
        },
        None => default,
    }
}

/// The header of the loader image `payload`.
pub open spec fn created_header(
    payload: Seq<u8>,
    version_override: Option<u32>,
    backup_offset_override: Option<u32>,
) -> HeaderView {
    HeaderView {
        bofs: override_or(backup_offset_override, DEF_BACKUP),
        vers: override_or(version_override, DEF_VERS),
        fsiz: payload.len() as u32,
        crcs: image_checksum(payload),
        ..default_header()
    }
}

/// A header after repair: it points to the backup image, and its checksum
/// is the one that the boot ROM rejects. Every other field is kept.
pub open spec fn fixed_header(h: HeaderView, backup_offset_override: Option<u32>) -> HeaderView {
    HeaderView { bofs: override_or(backup_offset_override, DEF_BACKUP), crcs: CRC_FAILED, ..h }
}

/// An override of zero stands for no override: callers cannot ask for the
/// value zero. So a header built with a zero override is the header built
/// without one, for the version and for the backup address alike, and a
/// header repaired with a zero override is the header repaired without one.
pub proof fn lemma_zero_override_is_default(
    payload: Seq<u8>,
    existing: HeaderView,
    version_override: Option<u32>,
    backup_offset_override: Option<u32>,
)
    ensures
        override_or(Some(0), DEF_VERS) == DEF_VERS,
        override_or(Some(0), DEF_BACKUP) == DEF_BACKUP,
        created_header(payload, Some(0), backup_offset_override) == created_header(
            payload,
            None,
            backup_offset_override,
        ),
        created_header(payload, version_override, Some(0)) == created_header(
            payload,
            version_override,
            None,
        ),
        fixed_header(existing, Some(0)) == fixed_header(existing, None),
{
}

/// A repaired header carries the rejected checksum whatever checksum the
/// header had before, and repairing it once more changes nothing.
pub proof fn lemma_fixed_checksum(h: HeaderView, backup_offset_override: Option<u32>)
    requires
        h.wf(),
    ensures
        fixed_header(h, backup_offset_override).crcs == CRC_FAILED,
        decode_header(encode_header(fixed_header(h, backup_offset_override))).crcs == CRC_FAILED,
        fixed_header(fixed_header(h, backup_offset_override), backup_offset_override)
            == fixed_header(h, backup_offset_override),
{
    lemma_decode_encode(fixed_header(h, backup_offset_override));
}

/// Repair rewrites the backup address at offset 4 and the checksum at
/// offset 656, and keeps every other byte of the header.
pub proof fn lemma_fix_keeps_other_bytes(b: Seq<u8>, backup_offset_override: Option<u32>)
    requires
        b.len() == SPL_HEADER_LEN,
    ensures
        encode_header(fixed_header(decode_header(b), backup_offset_override)) == b.subrange(0, 4)
            + le_bytes(override_or(backup_offset_override, DEF_BACKUP)) + b.subrange(8, 656)
            + le_bytes(CRC_FAILED) + b.subrange(660, 1024),
{
    let nb = override_or(backup_offset_override, DEF_BACKUP);
    let w0 = b.subrange(0, 4);
    let w644 = b.subrange(644, 648);
    let w648 = b.subrange(648, 652);
    let w652 = b.subrange(652, 656);
    lemma_le_bytes_of_word(w0);
    lemma_le_bytes_of_word(w644);
    lemma_le_bytes_of_word(w648);
    lemma_le_bytes_of_word(w652);
    lemma_le_word_of_bytes(nb);
    lemma_le_word_of_bytes(CRC_FAILED);
    let new_bofs = le_bytes(nb);
    let new_crcs = le_bytes(CRC_FAILED);
    let fixed = encode_header(fixed_header(decode_header(b), backup_offset_override));
    assert(fixed == w0 + new_bofs + b.subrange(8, 644) + w644 + w648 + w652 + new_crcs
        + b.subrange(660, 1024));
    assert(b.subrange(8, 644) + w644 + w648 + w652 =~= b.subrange(8, 656));
    assert(fixed =~= w0 + new_bofs + b.subrange(8, 656) + new_crcs + b.subrange(660, 1024));
}

/// Picks the override unless there is none or it is zero.
fn pick(over: Option<u32>, default: u32) -> (v: u32)
    ensures
        v == override_or(over, default),
{
    match over {
        Some(v) => if v != 0 {
            v
        } else {
            default
        },
        None => default,
    }
}

/// Builds the header for the loader image `payload`.
///
/// The image must be neither empty nor [`MAX_SPL_LEN`] bytes or longer;
/// otherwise the call fails with [`Error::InvalidSplLen`]. The version and
/// the backup address keep their defaults unless an override other than
/// zero is given. Returns the serialized header and the header itself.
pub fn create_header(
    payload: &[u8],
    version_override: Option<u32>,
    backup_offset_override: Option<u32>,
) -> (res: Result<([u8; SPL_HEADER_LEN], UbootSplHeader), Error>)
    ensures
        res is Ok <==> valid_spl_len(payload@.len()),
        res matches Ok((bytes, header)) ==> {
            &&& header@ == created_header(payload@, version_override, backup_offset_override)
            &&& bytes@ == encode_header(header@)
        },
        res matches Err(e) ==> e == Error::InvalidSplLen((payload@.len() as usize, MAX_SPL_LEN)),
{
    let sz = payload.len();
    if sz == 0 || sz >= MAX_SPL_LEN {
        return Err(Error::InvalidSplLen((sz, MAX_SPL_LEN)));
    }
    let mut header = UbootSplHeader::new();
    header.set_bofs(pick(backup_offset_override, DEF_BACKUP));
    header.set_vers(pick(version_override, DEF_VERS));
    header.set_fsiz(sz as u32);
    let v = crc32(CRC_INIT, CRC_POLY, payload);
    header.set_crcs(crc32_final(v));
    let bytes = header.serialize();
    Ok((bytes, header))
}

/// Repairs the header at the start of a disk image.
///
/// The backup address becomes the override, or the default when there is
/// none or it is zero, and the checksum becomes [`CRC_FAILED`]: the boot ROM
/// then rejects this header and loads from the backup address. Every other
/// byte is kept.
pub fn fix_existing_header(
    existing_header_bytes: [u8; SPL_HEADER_LEN],
    backup_offset_override: Option<u32>,
) -> (res: Result<[u8; SPL_HEADER_LEN], Error>)
    ensures
        res is Ok,
        res->Ok_0@ == encode_header(
            fixed_header(decode_header(existing_header_bytes@), backup_offset_override),
        ),
        decode_header(res->Ok_0@).crcs == CRC_FAILED,
        decode_header(res->Ok_0@).bofs == override_or(backup_offset_override, DEF_BACKUP),
{
    match UbootSplHeader::deserialize(existing_header_bytes.as_slice()) {
        Err(e) => Err(e),
        Ok(found) => {
            let mut header = found;
            header.set_bofs(pick(backup_offset_override, DEF_BACKUP));
            header.set_crcs(CRC_FAILED);
            proof {
                header.lemma_round_trip();
            }
            Ok(header.serialize())
        },
    }
}

/// Builds the header for the loader image `payload` as `conf` asks.
///
/// Nothing is built unless `conf` asks for a header. The version and the
/// backup address of `conf` replace the defaults where they are not zero.
pub fn spl_create_header(conf: &HeaderConf, payload: &[u8]) -> (res: Result<
    Option<([u8; SPL_HEADER_LEN], UbootSplHeader)>,
    Error,
>)
    ensures
        res is Ok <==> !conf@.create_header || valid_spl_len(payload@.len()),
        res matches Ok(made) ==> (made is Some <==> conf@.create_header),
        res matches Ok(Some((bytes, header))) ==> {
            &&& header@ == created_header(payload@, Some(conf@.vers), Some(conf@.bofs))
            &&& bytes@ == encode_header(header@)
        },
        res matches Err(e) ==> e == Error::InvalidSplLen((payload@.len() as usize, MAX_SPL_LEN)),
{
    if !conf.create_header() {
        Ok(None)
    } else {
        match create_header(payload, Some(conf.vers()), Some(conf.bofs())) {
            Ok(made) => Ok(Some(made)),
            Err(e) => Err(e),
        }
    }
}

/// Repairs the header at the start of a disk image as `conf` asks.
///
/// Nothing is done unless `conf` asks for the repair. The backup address of
/// `conf` is used if it is not zero, the default otherwise.
pub fn spl_fix_image_header(conf: &HeaderConf, img_bytes: [u8; SPL_HEADER_LEN]) -> (res: Result<
    Option<[u8; SPL_HEADER_LEN]>,
    Error,
>)
    ensures
        res is Ok,
        res->Ok_0 is Some <==> conf@.fix_image_header,
        res matches Ok(Some(bytes)) ==> {
            &&& bytes@ == encode_header(fixed_header(decode_header(img_bytes@), Some(conf@.bofs)))
            &&& decode_header(bytes@).crcs == CRC_FAILED
        },
{
    if !conf.fix_image_header() {
        Ok(None)
    } else {
        match fix_existing_header(img_bytes, Some(conf.bofs())) {
            Ok(bytes) => Ok(Some(bytes)),
            Err(e) => Err(e),
        }
    }
}

} // verus!
