//! What one run of the tool is asked to do.

use crate::spl_header::{zeros, DEF_BACKUP, DEF_VERS};
use vstd::prelude::*;
use vstd::slice::slice_subrange;
use vstd::string::StringSliceAdditionalSpecFns;
use vstd::utf8::{decode_utf8, encode_utf8_decode_utf8, valid_utf8};

verus! {

/// Default file name of the loader image.
pub const DEF_SPL_FILE: &'static str = "u-boot-spl.bin";

/// Length of the buffer that holds a path: the longest path has one byte
/// less, and a zero byte ends it.
pub const PATH_MAX: usize = 4096;

/// The configuration of one run: the file to work on, the values that
/// replace the header's defaults, and which of the two operations to do.
#[derive(Clone, Copy, Debug, PartialEq)]
pub struct HeaderConf {
    name: [u8; PATH_MAX],
    vers: u32,
    bofs: u32,
    create_header: bool,
    fix_image_header: bool,
}

/// What a configuration holds, as plain values.
pub struct ConfView {
    /// The whole buffer that holds the file name: the bytes that were
    /// stored, then zero bytes up to `PATH_MAX`.
    pub name_buf: Seq<u8>,
    /// Version tag for a new header; zero asks for the default.
    pub vers: u32,
    /// Address of the backup image; zero asks for the default.
    pub bofs: u32,
    /// Whether to build the header for a loader image.
    pub create_header: bool,
    /// Whether to repair the header of a disk image.
    pub fix_image_header: bool,
}

/// The bytes of `s` before its first zero byte: all of `s` if it has none.
pub open spec fn until_nul(s: Seq<u8>) -> Seq<u8>
    decreases s.len(),
{
    if s.len() == 0 || s[0] == 0 {
        Seq::empty()
    } else {
        seq![s[0]] + until_nul(s.drop_first())
    }
}

impl ConfView {
    /// The bytes of the file name: what the buffer holds before its first
    /// zero byte.
    pub open spec fn name(self) -> Seq<u8> {
        until_nul(self.name_buf)
    }

    /// The buffer has its fixed length and ends with a zero byte.
    pub open spec fn wf(self) -> bool {
        &&& self.name_buf.len() == PATH_MAX
        &&& self.name_buf[PATH_MAX - 1] == 0
    }
}

/// The bytes of `bytes` that fit into the buffer: all of them if they leave
/// room for a zero byte, else the first `PATH_MAX - 1`.
pub open spec fn kept_bytes(bytes: Seq<u8>) -> Seq<u8> {
    if bytes.len() < PATH_MAX {
        bytes
    } else {
        bytes.subrange(0, PATH_MAX - 1)
    }
}

/// The buffer after `bytes` is stored: the bytes that fit, then zero bytes
/// up to `PATH_MAX`. Nothing of an earlier name is left.
pub open spec fn stored_buf(bytes: Seq<u8>) -> Seq<u8> {
    kept_bytes(bytes) + zeros((PATH_MAX - kept_bytes(bytes).len()) as nat)
}

/// The file name that is kept when `bytes` is stored: at most
/// `PATH_MAX - 1` bytes of it, and none from its first zero byte on.
pub open spec fn stored_name(bytes: Seq<u8>) -> Seq<u8> {
    until_nul(kept_bytes(bytes))
}

/// The text that the bytes of a file name stand for: they are read as
/// UTF-8, and bytes that are not valid UTF-8 give the empty text.
pub open spec fn name_text(bytes: Seq<u8>) -> Seq<char> {
    if valid_utf8(bytes) {
        decode_utf8(bytes)
    } else {
        Seq::empty()
    }
}

/// The configuration that [`HeaderConf::new`] builds.
pub open spec fn default_conf() -> ConfView {
    ConfView {
        name_buf: zeros(PATH_MAX as nat),
        vers: DEF_VERS,
        bofs: DEF_BACKUP,
        create_header: false,
        fix_image_header: false,
    }
}

/// `until_nul(s)` is the prefix of `s` that ends before the first zero byte.
pub proof fn lemma_until_nul(s: Seq<u8>)
    ensures
        until_nul(s).len() <= s.len(),
        until_nul(s) == s.subrange(0, until_nul(s).len() as int),
        forall|j: int| 0 <= j < until_nul(s).len() ==> until_nul(s)[j] != 0,
        until_nul(s).len() < s.len() ==> s[until_nul(s).len() as int] == 0,
    decreases s.len(),
{
    if s.len() == 0 || s[0] == 0 {
        assert(until_nul(s) =~= s.subrange(0, 0));
    } else {
        let t = s.drop_first();
        lemma_until_nul(t);
        let n = until_nul(t).len() as int;
        assert(until_nul(s) =~= s.subrange(0, n + 1)) by {
            assert(until_nul(t) == t.subrange(0, n));
        }
        assert forall|j: int| 0 <= j < until_nul(s).len() implies until_nul(s)[j] != 0 by {
            if j > 0 {
                assert(until_nul(s)[j] == until_nul(t)[j - 1]);
            }
        }
        if n + 1 < s.len() {
            assert(s[n + 1] == t[n]);
        }
    }
}

/// A prefix of `s` without a zero byte, followed by a zero byte or by the
/// end of `s`, is `until_nul(s)`.
pub proof fn lemma_until_nul_at(s: Seq<u8>, n: int)
    requires
        0 <= n <= s.len(),
        forall|j: int| 0 <= j < n ==> s[j] != 0,
        n < s.len() ==> s[n] == 0,
    ensures
        until_nul(s) == s.subrange(0, n),
    decreases n,
{
    if n == 0 {
        assert(until_nul(s) =~= s.subrange(0, 0));
    } else {
        let t = s.drop_first();
        assert forall|j: int| 0 <= j < n - 1 implies t[j] != 0 by {
            assert(t[j] == s[j + 1]);
        }
        lemma_until_nul_at(t, n - 1);
        assert(until_nul(s) =~= s.subrange(0, n));
    }
}

/// Zero bytes behind a name do not change it.
pub proof fn lemma_until_nul_padded(p: Seq<u8>, k: nat)
    requires
        k > 0,
    ensures
        until_nul(p + zeros(k)) == until_nul(p),
{
    lemma_until_nul(p);
    let n = until_nul(p).len() as int;
    let s = p + zeros(k);
    assert forall|j: int| 0 <= j < n implies s[j] != 0 by {
        assert(s[j] == p[j]);
        assert(until_nul(p)[j] == p[j]);
    }
    assert(s[n] == 0);
    lemma_until_nul_at(s, n);
    assert(s.subrange(0, n) =~= p.subrange(0, n));
}

/// A stored file name is at most `PATH_MAX - 1` bytes long and holds no
/// zero byte.
pub proof fn lemma_stored_name_bounded(bytes: Seq<u8>)
    ensures
        stored_name(bytes).len() <= PATH_MAX - 1,
        forall|j: int| 0 <= j < stored_name(bytes).len() ==> stored_name(bytes)[j] != 0,
{
    lemma_until_nul(kept_bytes(bytes));
}

/// The buffer after a name is stored has its fixed length, ends with a zero
/// byte, and holds the stored name before its first zero byte.
pub proof fn lemma_stored_buf(bytes: Seq<u8>)
    ensures
        stored_buf(bytes).len() == PATH_MAX,
        stored_buf(bytes)[PATH_MAX - 1] == 0,
        until_nul(stored_buf(bytes)) == stored_name(bytes),
{
    let kept = kept_bytes(bytes);
    lemma_until_nul_padded(kept, (PATH_MAX - kept.len()) as nat);
}

/// The configuration that [`HeaderConf::new`] builds has no file name.
pub proof fn lemma_default_conf_name()
    ensures
        default_conf().wf(),
        default_conf().name() == Seq::<u8>::empty(),
{
    assert(until_nul(zeros(PATH_MAX as nat)) =~= Seq::<u8>::empty());
}

/// Calls `core::str::from_utf8` and drops the error that it may return.
///
/// The contract is taken on trust from the documentation of that function:
/// it succeeds exactly on valid UTF-8, and the text it returns is made of
/// the very bytes it was given.
#[verifier::external_body]
fn text_from_utf8(bytes: &[u8]) -> (res: Option<&str>)
    ensures
        res is Some <==> valid_utf8(bytes@),
        res matches Some(s) ==> s.spec_bytes() == bytes@,
{
    core::str::from_utf8(bytes).ok()
}

impl View for HeaderConf {
    type V = ConfView;

    closed spec fn view(&self) -> ConfView {
        ConfView {
            name_buf: self.name@,
            vers: self.vers,
            bofs: self.bofs,
            create_header: self.create_header,
            fix_image_header: self.fix_image_header,
        }
    }
}

impl HeaderConf {
    /// The buffer always ends with a zero byte, so the name always ends
    /// inside it.
    #[verifier::type_invariant]
    spec fn terminated(&self) -> bool {
        self.name@[PATH_MAX - 1] == 0
    }

    /// Creates a configuration with no file name, the default version and
    /// backup address, and no operation chosen.
    pub fn new() -> (conf: Self)
        ensures
            conf@ == default_conf(),
            conf@.name() == Seq::<u8>::empty(),
    {
        let conf = Self {
            name: [0u8;PATH_MAX],
            vers: DEF_VERS,
            bofs: DEF_BACKUP,
            create_header: false,
            fix_image_header: false,
        };
        assert(conf.name@ =~= zeros(PATH_MAX as nat));
        proof {
            lemma_default_conf_name();
        }
        conf
    }

    /// Gets the file name as text.
    ///
    /// A name that is not valid UTF-8 reads as the empty text.
    pub fn name(&self) -> (text: &str)
        ensures
            text@ == name_text(self@.name()),
            valid_utf8(self@.name()) ==> text.spec_bytes() == self@.name(),
    {
        let len = self.name_len();
        let bytes = slice_subrange(self.name.as_slice(), 0, len);
        proof {
            lemma_until_nul(self.name@);
        }
        match text_from_utf8(bytes) {
            Some(text) => {
                proof {
                    encode_utf8_decode_utf8(text@);
                }
                text
            },
            None => {
                proof {
                    reveal_strlit("");
                }
                assert(""@ =~= Seq::<char>::empty());
                ""
            },
        }
    }

    /// Gets the length of the file name in bytes.
    pub fn name_len(&self) -> (n: usize)
        ensures
            n == self@.name().len(),
            n <= PATH_MAX - 1,
    {
        proof {
            use_type_invariant(self);
        }
        let mut i: usize = 0;
        while i < PATH_MAX && self.name[i] != 0
            invariant
                i <= PATH_MAX,
                self.name@[PATH_MAX - 1] == 0,
                forall|j: int| 0 <= j < i ==> self.name@[j] != 0,
            decreases PATH_MAX - i,
        {
            i = i + 1;
        }
        proof {
            lemma_until_nul_at(self.name@, i as int);
        }
        i
    }

    /// Sets the file name.
    ///
    /// At most `PATH_MAX - 1` bytes of `val` are stored, and the name ends
    /// before the first zero byte among them. The rest of the buffer is
    /// zeroed, so nothing of the name held before is left.
    pub fn set_name(&mut self, val: &str)
        ensures
            final(self)@ == (ConfView { name_buf: stored_buf(val.spec_bytes()), ..old(self)@ }),
            final(self)@.name() == stored_name(val.spec_bytes()),
    {
        let val_bytes = val.as_bytes();
        let len = if val_bytes.len() < PATH_MAX {
            val_bytes.len()
        } else {
            PATH_MAX - 1
        };
        let mut name = [0u8;PATH_MAX];
        let mut i: usize = 0;
        while i < len
            invariant
                len <= PATH_MAX - 1,
                len <= val_bytes@.len(),
                i <= len,
                forall|j: int| 0 <= j < i ==> name@[j] == val_bytes@[j],
                forall|j: int| i <= j < PATH_MAX ==> name@[j] == 0,
            decreases len - i,
        {
            name[i] = val_bytes[i];
            i = i + 1;
        }
        proof {
            let kept = kept_bytes(val_bytes@);
            assert(kept =~= val_bytes@.subrange(0, len as int));
            assert(name@ =~= stored_buf(val_bytes@));
            lemma_stored_buf(val_bytes@);
        }
        self.name = name;
    }

    /// Builder function that sets the file name.
    pub fn with_name(self, val: &str) -> (conf: Self)
        ensures
            conf@ == (ConfView { name_buf: stored_buf(val.spec_bytes()), ..self@ }),
            conf@.name() == stored_name(val.spec_bytes()),
    {
        let mut conf = self;
        conf.set_name(val);
        conf
    }

    /// Gets the version.
    pub fn vers(&self) -> (v: u32)
        ensures
            v == self@.vers,
    {
        self.vers
    }

    /// Sets the version.
    pub fn set_vers(&mut self, val: u32)
        ensures
            final(self)@ == (ConfView { vers: val, ..old(self)@ }),
    {
        proof {
            use_type_invariant(&*self);
        }
        self.vers = val;
    }

    /// Builder function that sets the version.
    pub fn with_vers(self, val: u32) -> (conf: Self)
        ensures
            conf@ == (ConfView { vers: val, ..self@ }),
    {
        let mut conf = self;
        conf.set_vers(val);
        conf
    }

    /// Gets the address of the backup image.
    pub fn bofs(&self) -> (v: u32)
        ensures
            v == self@.bofs,
    {
        self.bofs
    }

    /// Sets the address of the backup image.
    pub fn set_bofs(&mut self, val: u32)
        ensures
            final(self)@ == (ConfView { bofs: val, ..old(self)@ }),
    {
        proof {
            use_type_invariant(&*self);
        }
        self.bofs = val;
    }

    /// Builder function that sets the address of the backup image.
    pub fn with_bofs(self, val: u32) -> (conf: Self)
        ensures
            conf@ == (ConfView { bofs: val, ..self@ }),
    {
        let mut conf = self;
        conf.set_bofs(val);
        conf
    }

    /// Gets whether to build the header for a loader image.
    pub fn create_header(&self) -> (b: bool)
        ensures
            b == self@.create_header,
    {
        self.create_header
    }

    /// Sets whether to build the header for a loader image.
    pub fn set_create_header(&mut self, val: bool)
        ensures
            final(self)@ == (ConfView { create_header: val, ..old(self)@ }),
    {
        proof {
            use_type_invariant(&*self);
        }
        self.create_header = val;
    }

    /// Builder function that sets whether to build the header for a loader
    /// image.
    pub fn with_create_header(self, val: bool) -> (conf: Self)
        ensures
            conf@ == (ConfView { create_header: val, ..self@ }),
    {
        let mut conf = self;
        conf.set_create_header(val);
        conf
    }

    /// Gets whether to repair the header of a disk image.
    pub fn fix_image_header(&self) -> (b: bool)
        ensures
            b == self@.fix_image_header,
    {
        self.fix_image_header
    }

    /// Sets whether to repair the header of a disk image.
    pub fn set_fix_image_header(&mut self, val: bool)
        ensures
            final(self)@ == (ConfView { fix_image_header: val, ..old(self)@ }),
    {
        proof {
            use_type_invariant(&*self);
        }
        self.fix_image_header = val;
    }

    /// Builder function that sets whether to repair the header of a disk
    /// image.
    pub fn with_fix_image_header(self, val: bool) -> (conf: Self)
        ensures
            conf@ == (ConfView { fix_image_header: val, ..self@ }),
    {
        let mut conf = self;
        conf.set_fix_image_header(val);
        conf
    }

    /// A configuration is determined by what it holds: two configurations
    /// with the same view are the same value.
    pub proof fn lemma_view_injective(self, other: Self)
        requires
            self@ == other@,
        ensures
            self == other,
    {
        assert(self.name =~= other.name);
    }
}

impl Default for HeaderConf {
    /// The configuration that [`HeaderConf::new`] builds.
    fn default() -> (conf: Self)
        ensures
            conf@ == default_conf(),
            conf@.name() == Seq::<u8>::empty(),
    {
        Self::new()
    }
}

} // verus!
