//! The boot header and its byte layout.
//!
//! A header is 1024 bytes long. Its fields are little-endian 32-bit words at
//! fixed offsets, with two reserved regions between and after them:
//!
//! | offset | field  | width |
//! |--------|--------|-------|
//! | 0      | `sofs` | 4     |
//! | 4      | `bofs` | 4     |
//! | 8      | `zro2` | 636   |
//! | 644    | `vers` | 4     |
//! | 648    | `fsiz` | 4     |
//! | 652    | `resl` | 4     |
//! | 656    | `crcs` | 4     |
//! | 660    | `zro3` | 364   |

use crate::buffer::{
    le_bytes, le_word, lemma_le_bytes_of_word, lemma_le_word_of_bytes, read_bytes, read_word,
    write_bytes, write_word,
};
use crate::error::Error;
use vstd::prelude::*;
use vstd::std_specs::convert::{FromSpecImpl, TryFromSpecImpl};

verus! {

/// Default value of the offset of the header: `64 + 256 + 256 = 0x240`.
pub const DEF_SOFS: u32 = 0x240;

/// Default version tag.
pub const DEF_VERS: u32 = 0x01010101;

/// Default address of the backup image.
pub const DEF_BACKUP: u32 = 0x200000;

/// Default offset from the header to the loader image.
pub const DEF_RESL: u32 = 0x400;

/// Checksum value that the boot ROM is sure to reject.
pub const CRC_FAILED: u32 = 0x5a5a5a5a;

/// Length of a header in bytes, reserved regions included.
pub const SPL_HEADER_LEN: usize = 1024;

/// Length of the reserved region between `bofs` and `vers`.
pub const RES_PAD2_LEN: usize = 636;

/// Length of the reserved region after `crcs`.
pub const RES_PAD3_LEN: usize = 364;

/// The header in front of the loader image.
///
/// All words are little-endian in the serialized header.
#[derive(Copy, Clone, Debug, PartialEq)]
pub struct UbootSplHeader {
    sofs: u32,
    bofs: u32,
    // reserved region
    zro2: [u8; RES_PAD2_LEN],
    vers: u32,
    fsiz: u32,
    resl: u32,
    crcs: u32,
    // reserved region
    zro3: [u8; RES_PAD3_LEN],
}

/// What a header holds, as plain values.
pub struct HeaderView {
    /// Offset of the header from its anchor.
    pub sofs: u32,
    /// Address of the backup image.
    pub bofs: u32,
    /// The reserved bytes between `bofs` and `vers`.
    pub zro2: Seq<u8>,
    /// Version tag.
    pub vers: u32,
    /// Length of the loader image in bytes.
    pub fsiz: u32,
    /// Offset from the header to the loader image.
    pub resl: u32,
    /// Checksum of the loader image.
    pub crcs: u32,
    /// The reserved bytes after `crcs`.
    pub zro3: Seq<u8>,
}

impl HeaderView {
    /// The reserved regions have their fixed lengths.
    pub open spec fn wf(self) -> bool {
        &&& self.zro2.len() == RES_PAD2_LEN
        &&& self.zro3.len() == RES_PAD3_LEN
    }
}

impl View for UbootSplHeader {
    type V = HeaderView;

    closed spec fn view(&self) -> HeaderView {
        HeaderView {
            sofs: self.sofs,
            bofs: self.bofs,
            zro2: self.zro2@,
            vers: self.vers,
            fsiz: self.fsiz,
            resl: self.resl,
            crcs: self.crcs,
            zro3: self.zro3@,
        }
    }
}

/// `n` zero bytes.
pub open spec fn zeros(n: nat) -> Seq<u8> {
    Seq::new(n, |i: int| 0u8)
}

/// The header that [`UbootSplHeader::new`] builds.
pub open spec fn default_header() -> HeaderView {
    HeaderView {
        sofs: DEF_SOFS,
        bofs: DEF_BACKUP,
        zro2: zeros(RES_PAD2_LEN as nat),
        vers: DEF_VERS,
        fsiz: 0,
        resl: DEF_RESL,
        crcs: 0,
        zro3: zeros(RES_PAD3_LEN as nat),
    }
}

/// The serialized form of a header: every field in layout order.
pub open spec fn encode_header(h: HeaderView) -> Seq<u8> {
    le_bytes(h.sofs) + le_bytes(h.bofs) + h.zro2 + le_bytes(h.vers) + le_bytes(h.fsiz) + le_bytes(
        h.resl,
    ) + le_bytes(h.crcs) + h.zro3
}

/// The header that the first 1024 bytes of `b` hold: every field read at its
/// offset, the reserved regions taken as they are.
pub open spec fn decode_header(b: Seq<u8>) -> HeaderView {
    HeaderView {
        sofs: le_word(b.subrange(0, 4)),
        bofs: le_word(b.subrange(4, 8)),
        zro2: b.subrange(8, 644),
        vers: le_word(b.subrange(644, 648)),
        fsiz: le_word(b.subrange(648, 652)),
        resl: le_word(b.subrange(652, 656)),
        crcs: le_word(b.subrange(656, 660)),
        zro3: b.subrange(660, 1024),
    }
}

/// A serialized header is 1024 bytes long and holds each field at its
/// offset.
pub proof fn lemma_encode_layout(h: HeaderView)
    requires
        h.wf(),
    ensures
        encode_header(h).len() == SPL_HEADER_LEN,
        encode_header(h).subrange(0, 4) == le_bytes(h.sofs),
        encode_header(h).subrange(4, 8) == le_bytes(h.bofs),
        encode_header(h).subrange(8, 644) == h.zro2,
        encode_header(h).subrange(644, 648) == le_bytes(h.vers),
        encode_header(h).subrange(648, 652) == le_bytes(h.fsiz),
        encode_header(h).subrange(652, 656) == le_bytes(h.resl),
        encode_header(h).subrange(656, 660) == le_bytes(h.crcs),
        encode_header(h).subrange(660, 1024) == h.zro3,
{
    let e = encode_header(h);
    assert(e.len() == 1024);
    assert(e.subrange(0, 4) =~= le_bytes(h.sofs));
    assert(e.subrange(4, 8) =~= le_bytes(h.bofs));
    assert(e.subrange(8, 644) =~= h.zro2);
    assert(e.subrange(644, 648) =~= le_bytes(h.vers));
    assert(e.subrange(648, 652) =~= le_bytes(h.fsiz));
    assert(e.subrange(652, 656) =~= le_bytes(h.resl));
    assert(e.subrange(656, 660) =~= le_bytes(h.crcs));
    assert(e.subrange(660, 1024) =~= h.zro3);
}

/// Reading a serialized header back gives the same header, reserved bytes
/// included.
pub proof fn lemma_decode_encode(h: HeaderView)
    requires
        h.wf(),
    ensures
        decode_header(encode_header(h)) == h,
{
    lemma_encode_layout(h);
    lemma_le_word_of_bytes(h.sofs);
    lemma_le_word_of_bytes(h.bofs);
    lemma_le_word_of_bytes(h.vers);
    lemma_le_word_of_bytes(h.fsiz);
    lemma_le_word_of_bytes(h.resl);
    lemma_le_word_of_bytes(h.crcs);
}

/// Serializing the header read from a buffer gives the buffer's first 1024
/// bytes back: reading loses nothing.
pub proof fn lemma_encode_decode(b: Seq<u8>)
    requires
        b.len() >= SPL_HEADER_LEN,
    ensures
        decode_header(b).wf(),
        encode_header(decode_header(b)) == b.subrange(0, 1024),
{
    lemma_le_bytes_of_word(b.subrange(0, 4));
    lemma_le_bytes_of_word(b.subrange(4, 8));
    lemma_le_bytes_of_word(b.subrange(644, 648));
    lemma_le_bytes_of_word(b.subrange(648, 652));
    lemma_le_bytes_of_word(b.subrange(652, 656));
    lemma_le_bytes_of_word(b.subrange(656, 660));
    assert(encode_header(decode_header(b)) =~= b.subrange(0, 1024));
}

/// Only the first 1024 bytes of a buffer count when a header is read.
pub proof fn lemma_decode_prefix(b: Seq<u8>)
    requires
        b.len() >= SPL_HEADER_LEN,
    ensures
        decode_header(b.subrange(0, 1024)) == decode_header(b),
{
    let p = b.subrange(0, 1024);
    assert(p.subrange(0, 4) =~= b.subrange(0, 4));
    assert(p.subrange(4, 8) =~= b.subrange(4, 8));
    assert(p.subrange(8, 644) =~= b.subrange(8, 644));
    assert(p.subrange(644, 648) =~= b.subrange(644, 648));
    assert(p.subrange(648, 652) =~= b.subrange(648, 652));
    assert(p.subrange(652, 656) =~= b.subrange(652, 656));
    assert(p.subrange(656, 660) =~= b.subrange(656, 660));
    assert(p.subrange(660, 1024) =~= b.subrange(660, 1024));
}

/// The array that holds the serialized form of `h`.
pub open spec fn header_array(h: HeaderView) -> [u8; SPL_HEADER_LEN] {
    choose|a: [u8; SPL_HEADER_LEN]| a@ == encode_header(h)
}

/// What reading a header from `b` gives: an error when fewer than 1024
/// bytes are there, else the header that they hold.
pub open spec fn deserialize_spec(b: Seq<u8>) -> Result<UbootSplHeader, Error> {
    if b.len() < SPL_HEADER_LEN {
        Err(Error::InvalidHeaderLen((b.len() as usize, SPL_HEADER_LEN)))
    } else {
        Ok(UbootSplHeader::holding(decode_header(b)))
    }
}

impl UbootSplHeader {
    /// The header that holds `v`.
    pub closed spec fn holding(v: HeaderView) -> Self {
        choose|h: Self| h@ == v
    }

    /// Creates a header with the default field values and zeroed reserved
    /// regions.
    pub fn new() -> (h: Self)
        ensures
            h@ == default_header(),
    {
        let h = Self {
            sofs: DEF_SOFS,
            bofs: DEF_BACKUP,
            zro2: [0;RES_PAD2_LEN],
            vers: DEF_VERS,
            fsiz: 0,
            resl: DEF_RESL,
            crcs: 0,
            zro3: [0;RES_PAD3_LEN],
        };
        assert(h.zro2@ =~= zeros(RES_PAD2_LEN as nat));
        assert(h.zro3@ =~= zeros(RES_PAD3_LEN as nat));
        h
    }

    /// Gets the offset of the header: `64 + 256 + 256 = 0x240`.
    pub fn sofs(&self) -> (v: u32)
        ensures
            v == self@.sofs,
    {
        self.sofs
    }

    /// Gets the address of the backup image.
    pub fn bofs(&self) -> (v: u32)
        ensures
            v == self@.bofs,
    {
        self.bofs
    }

    /// Sets the address of the backup image.
    pub fn set_bofs(&mut self, val: u32)
        ensures
            final(self)@ == (HeaderView { bofs: val, ..old(self)@ }),
    {
        self.bofs = val;
    }

    /// Builder function that sets the address of the backup image.
    pub fn with_bofs(self, val: u32) -> (h: Self)
        ensures
            h@ == (HeaderView { bofs: val, ..self@ }),
    {
        let mut h = self;
        h.set_bofs(val);
        h
    }

    /// Gets the version: `0x01010101` by default.
    pub fn vers(&self) -> (v: u32)
        ensures
            v == self@.vers,
    {
        self.vers
    }

    /// Sets the version.
    pub fn set_vers(&mut self, val: u32)
        ensures
            final(self)@ == (HeaderView { vers: val, ..old(self)@ }),
    {
        self.vers = val;
    }

    /// Builder function that sets the version.
    pub fn with_vers(self, val: u32) -> (h: Self)
        ensures
            h@ == (HeaderView { vers: val, ..self@ }),
    {
        let mut h = self;
        h.set_vers(val);
        h
    }

    /// Gets the length of the loader image in bytes.
    pub fn fsiz(&self) -> (v: u32)
        ensures
            v == self@.fsiz,
    {
        self.fsiz
    }

    /// Sets the length of the loader image in bytes.
    pub fn set_fsiz(&mut self, val: u32)
        ensures
            final(self)@ == (HeaderView { fsiz: val, ..old(self)@ }),
    {
        self.fsiz = val;
    }

    /// Builder function that sets the length of the loader image in bytes.
    pub fn with_fsiz(self, val: u32) -> (h: Self)
        ensures
            h@ == (HeaderView { fsiz: val, ..self@ }),
    {
        let mut h = self;
        h.set_fsiz(val);
        h
    }

    /// Gets the offset from the header to the loader image.
    ///
    /// Defaults to `0x400 (00 04 00 00)`.
    pub fn resl(&self) -> (v: u32)
        ensures
            v == self@.resl,
    {
        self.resl
    }

    /// Sets the offset from the header to the loader image.
    pub fn set_resl(&mut self, val: u32)
        ensures
            final(self)@ == (HeaderView { resl: val, ..old(self)@ }),
    {
        self.resl = val;
    }

    /// Builder function that sets the offset from the header to the loader
    /// image.
    pub fn with_resl(self, val: u32) -> (h: Self)
        ensures
            h@ == (HeaderView { resl: val, ..self@ }),
    {
        let mut h = self;
        h.set_resl(val);
        h
    }

    /// Gets the checksum of the loader image.
    pub fn crcs(&self) -> (v: u32)
        ensures
            v == self@.crcs,
    {
        self.crcs
    }

    /// Sets the checksum of the loader image.
    pub fn set_crcs(&mut self, val: u32)
        ensures
            final(self)@ == (HeaderView { crcs: val, ..old(self)@ }),
    {
        self.crcs = val;
    }

    /// Builder function that sets the checksum of the loader image.
    pub fn with_crcs(self, val: u32) -> (h: Self)
        ensures
            h@ == (HeaderView { crcs: val, ..self@ }),
    {
        let mut h = self;
        h.set_crcs(val);
        h
    }

    /// Writes the header out: every word little-endian at its offset, the
    /// reserved regions as they are held.
    pub fn serialize(&self) -> (bytes: [u8; SPL_HEADER_LEN])
        ensures
            bytes@.len() == SPL_HEADER_LEN,
            bytes@ == encode_header(self@),
    {
        let mut res = [0u8;SPL_HEADER_LEN];
        write_word(&mut res, 0, self.sofs);
        write_word(&mut res, 4, self.bofs);
        write_bytes(&mut res, 8, self.zro2.as_slice());
        write_word(&mut res, 644, self.vers);
        write_word(&mut res, 648, self.fsiz);
        write_word(&mut res, 652, self.resl);
        write_word(&mut res, 656, self.crcs);
        write_bytes(&mut res, 660, self.zro3.as_slice());
        assert(res@ =~= encode_header(self@));
        res
    }

    /// Reads a header from the first 1024 bytes of `val`.
    ///
    /// Fails with [`Error::InvalidHeaderLen`] when `val` is shorter than
    /// that. The reserved regions are taken as they are, whatever they hold.
    pub fn deserialize(val: &[u8]) -> (res: Result<Self, Error>)
        ensures
            val@.len() < SPL_HEADER_LEN ==> res == Err::<Self, Error>(
                Error::InvalidHeaderLen((val@.len() as usize, SPL_HEADER_LEN)),
            ),
            val@.len() >= SPL_HEADER_LEN ==> res is Ok && res->Ok_0@ == decode_header(val@),
    {
        if val.len() < SPL_HEADER_LEN {
            Err(Error::InvalidHeaderLen((val.len(), SPL_HEADER_LEN)))
        } else {
            let sofs = read_word(val, 0);
            let bofs = read_word(val, 4);
            let zro2: [u8; RES_PAD2_LEN] = read_bytes(val, 8);
            let vers = read_word(val, 644);
            let fsiz = read_word(val, 648);
            let resl = read_word(val, 652);
            let crcs = read_word(val, 656);
            let zro3: [u8; RES_PAD3_LEN] = read_bytes(val, 660);
            Ok(Self { sofs, bofs, zro2, vers, fsiz, resl, crcs, zro3 })
        }
    }

    /// The reserved regions of a header always have their fixed lengths.
    pub proof fn lemma_view_wf(self)
        ensures
            self@.wf(),
    {
    }

    /// A header is determined by what it holds.
    pub proof fn lemma_view_injective(self, other: Self)
        requires
            self@ == other@,
        ensures
            self == other,
    {
        assert(self.zro2 =~= other.zro2);
        assert(self.zro3 =~= other.zro3);
    }

    /// Each header is the one that holds what it holds.
    pub proof fn lemma_holding(self)
        ensures
            Self::holding(self@) == self,
    {
        let h = Self::holding(self@);
        assert(h@ == self@);
        h.lemma_view_injective(self);
    }

    /// Serializing a header and reading it back gives the same header,
    /// reserved bytes included.
    pub proof fn lemma_round_trip(self)
        ensures
            encode_header(self@).len() == SPL_HEADER_LEN,
            decode_header(encode_header(self@)) == self@,
    {
        lemma_encode_layout(self@);
        lemma_decode_encode(self@);
    }
}

impl Default for UbootSplHeader {
    /// The header that [`UbootSplHeader::new`] builds.
    fn default() -> (h: Self)
        ensures
            h@ == default_header(),
    {
        Self::new()
    }
}

impl From<&UbootSplHeader> for [u8; SPL_HEADER_LEN] {
    /// Serializes the header, as [`UbootSplHeader::serialize`] does.
    fn from(val: &UbootSplHeader) -> (bytes: Self)
        ensures
            bytes@ == encode_header(val@),
    {
        let bytes = val.serialize();
        assert(bytes =~= header_array(val@));
        bytes
    }
}

impl FromSpecImpl<&UbootSplHeader> for [u8; SPL_HEADER_LEN] {
    open spec fn obeys_from_spec() -> bool {
        true
    }

    open spec fn from_spec(v: &UbootSplHeader) -> Self {
        header_array(v@)
    }
}

impl From<UbootSplHeader> for [u8; SPL_HEADER_LEN] {
    /// Serializes the header, as [`UbootSplHeader::serialize`] does.
    fn from(val: UbootSplHeader) -> (bytes: Self)
        ensures
            bytes@ == encode_header(val@),
    {
        let bytes = val.serialize();
        assert(bytes =~= header_array(val@));
        bytes
    }
}

impl FromSpecImpl<UbootSplHeader> for [u8; SPL_HEADER_LEN] {
    open spec fn obeys_from_spec() -> bool {
        true
    }

    open spec fn from_spec(v: UbootSplHeader) -> Self {
        header_array(v@)
    }
}

impl TryFrom<&[u8]> for UbootSplHeader {
    type Error = Error;

    /// Reads a header, as [`UbootSplHeader::deserialize`] does.
    fn try_from(val: &[u8]) -> (res: Result<Self, Error>)
        ensures
            val@.len() < SPL_HEADER_LEN ==> res == Err::<Self, Error>(
                Error::InvalidHeaderLen((val@.len() as usize, SPL_HEADER_LEN)),
            ),
            val@.len() >= SPL_HEADER_LEN ==> res is Ok && res->Ok_0@ == decode_header(val@),
    {
        let res = Self::deserialize(val);
        proof {
            if let Ok(h) = res {
                h.lemma_holding();
            }
        }
        res
    }
}

impl TryFromSpecImpl<&[u8]> for UbootSplHeader {
    open spec fn obeys_try_from_spec() -> bool {
        true
    }

    open spec fn try_from_spec(v: &[u8]) -> Result<Self, Error> {
        deserialize_spec(v@)
    }
}

impl<const N: usize> TryFrom<&[u8; N]> for UbootSplHeader {
    type Error = Error;

    /// Reads a header, as [`UbootSplHeader::deserialize`] does.
    fn try_from(val: &[u8; N]) -> (res: Result<Self, Error>)
        ensures
            N < SPL_HEADER_LEN ==> res == Err::<Self, Error>(
                Error::InvalidHeaderLen((N, SPL_HEADER_LEN)),
            ),
            N >= SPL_HEADER_LEN ==> res is Ok && res->Ok_0@ == decode_header(val@),
    {
        let res = Self::deserialize(val.as_slice());
        proof {
            if let Ok(h) = res {
                h.lemma_holding();
            }
        }
        res
    }
}

impl<const N: usize> TryFromSpecImpl<&[u8; N]> for UbootSplHeader {
    open spec fn obeys_try_from_spec() -> bool {
        true
    }

    open spec fn try_from_spec(v: &[u8; N]) -> Result<Self, Error> {
        deserialize_spec(v@)
    }
}

impl<const N: usize> TryFrom<[u8; N]> for UbootSplHeader {
    type Error = Error;

    /// Reads a header, as [`UbootSplHeader::deserialize`] does.
    fn try_from(val: [u8; N]) -> (res: Result<Self, Error>)
        ensures
            N < SPL_HEADER_LEN ==> res == Err::<Self, Error>(
                Error::InvalidHeaderLen((N, SPL_HEADER_LEN)),
            ),
            N >= SPL_HEADER_LEN ==> res is Ok && res->Ok_0@ == decode_header(val@),
    {
        let res = Self::deserialize(val.as_slice());
        proof {
            if let Ok(h) = res {
                h.lemma_holding();
            }
        }
        res
    }
}

impl<const N: usize> TryFromSpecImpl<[u8; N]> for UbootSplHeader {
    open spec fn obeys_try_from_spec() -> bool {
        true
    }

    open spec fn try_from_spec(v: [u8; N]) -> Result<Self, Error> {
        deserialize_spec(v@)
    }
}

} // verus!
