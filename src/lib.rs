//! An immutable string value with a small-value optimisation: text of at most
//! fourteen bytes is stored inside the value, longer text in one exactly-sized,
//! uniquely owned heap buffer.
use vstd::prelude::*;
use vstd::slice::slice_subrange;
use vstd::string::*;
use vstd::utf8::*;

verus! {

/// Longest text, in UTF-8 bytes, that is stored inline.
pub const MAX_INLINE_STR_LEN: usize = 14;

/// Longest text, in UTF-8 bytes, that the type can hold at all.
pub const MAX_STR_LEN: usize = 0xffff_ffff;

/// The two representations. Which one a value uses is decided by its length
/// alone (see `MiniImmStr::wf`).
#[derive(Hash)]
enum StrTypes {
    /// Text of more than fourteen bytes, in a buffer of exactly its length.
    Heap { text: Box<str> },
    /// Text of at most fourteen bytes: the first `len` bytes of `bytes`,
    /// followed by zero filler.
    Inline { len: u8, bytes: [u8; 14] },
}

/// An immutable string. Its view is the text it holds.
///
/// The value has the same size whichever form it uses: three machine words
/// (24 bytes on a 64-bit target), since the heap form holds a `Box<str>`,
/// a pointer and a length, beside the enum's tag.
#[derive(Hash)]
pub struct MiniImmStr {
    inner: StrTypes,
}

/// The UTF-8 length, in bytes, of a text.
pub open spec fn utf8_len(s: Seq<char>) -> nat {
    encode_utf8(s).len()
}

/// Relies on std::str::from_utf8: every valid UTF-8 slice is accepted, and the
/// text it yields is made of exactly the bytes of the slice.
#[verifier::external_body]
fn text_of_utf8(b: &[u8]) -> (r: Option<&str>)
    ensures
        valid_utf8(b@) ==> r.is_some(),
        r matches Some(s) ==> s.spec_bytes() == b@,
{
    std::str::from_utf8(b).ok()
}

/// Relies on String::into_boxed_str: the same text, in a buffer of exactly its
/// length.
#[verifier::external_body]
fn boxed_text(s: String) -> (r: Box<str>)
    ensures
        r@ == s@,
{
    s.into_boxed_str()
}

/// Relies on str::into_string: the same text, taking over the boxed buffer
/// without copying.
#[verifier::external_body]
fn string_of_boxed(b: Box<str>) -> (r: String)
    ensures
        r@ == b@,
{
    b.into_string()
}

impl View for MiniImmStr {
    type V = Seq<char>;

    closed spec fn view(&self) -> Seq<char> {
        match self.inner {
            StrTypes::Heap { text } => text@,
            StrTypes::Inline { len, bytes } => decode_utf8(bytes@.subrange(0, len as int)),
        }
    }
}

/// Takes ownership of a buffer of more than fourteen bytes as the heap form.
fn gen_heap_str(s: Box<str>) -> (r: StrTypes)
    requires
        MAX_INLINE_STR_LEN < s.spec_bytes().len() <= MAX_STR_LEN,
    ensures
        r == (StrTypes::Heap { text: s }),
{
    StrTypes::Heap { text: s }
}

/// Copies at most fourteen bytes of valid UTF-8 into the inline form, with
/// zero filler.
fn gen_inline_str(b: &[u8]) -> (r: StrTypes)
    requires
        b@.len() <= MAX_INLINE_STR_LEN,
        valid_utf8(b@),
    ensures
        r matches StrTypes::Inline { len, bytes } && len == b@.len() && bytes@.subrange(
            0,
            len as int,
        ) == b@ && forall|i: int| len <= i < MAX_INLINE_STR_LEN ==> bytes@[i] == 0u8,
{
    let mut bytes = [0u8; 14];
    let n = b.len();
    let mut i: usize = 0;
    while i < n
        invariant
            n == b@.len() <= MAX_INLINE_STR_LEN,
            0 <= i <= n,
            forall|k: int| 0 <= k < i ==> bytes@[k] == b@[k],
            forall|k: int| n <= k < MAX_INLINE_STR_LEN ==> bytes@[k] == 0u8,
        decreases n - i,
    {
        bytes[i] = b[i];
        i = i + 1;
    }
    proof {
        assert(bytes@.subrange(0, n as int) =~= b@);
    }
    StrTypes::Inline { len: n as u8, bytes }
}

/// The text held by an inline payload.
fn inline_text(bytes: &[u8; 14], len: u8) -> (r: &str)
    requires
        len <= MAX_INLINE_STR_LEN,
        valid_utf8(bytes@.subrange(0, len as int)),
    ensures
        r.spec_bytes() == bytes@.subrange(0, len as int),
        r@ == decode_utf8(bytes@.subrange(0, len as int)),
{
    let payload = slice_subrange(bytes.as_slice(), 0, len as usize);
    match text_of_utf8(payload) {
        Some(s) => {
            proof {
                encode_utf8_decode_utf8(s@);
            }
            s
        },
        None => {
            proof {
                assert(false);
            }
            ""
        },
    }
}

impl MiniImmStr {
    /// Valid UTF-8 payload; the inline form exactly for texts of at most
    /// fourteen bytes, with zero filler; never more than `MAX_STR_LEN` bytes.
    #[verifier::type_invariant]
    pub closed spec fn wf(self) -> bool {
        match self.inner {
            StrTypes::Heap { text } => MAX_INLINE_STR_LEN < text.spec_bytes().len()
                <= MAX_STR_LEN,
            StrTypes::Inline { len, bytes } => {
                &&& len <= MAX_INLINE_STR_LEN
                &&& valid_utf8(bytes@.subrange(0, len as int))
                &&& forall|i: int| len <= i < MAX_INLINE_STR_LEN ==> bytes@[i] == 0u8
            },
        }
    }

    /// The number of UTF-8 bytes of the text.
    pub open spec fn spec_len(&self) -> nat {
        utf8_len(self@)
    }

    /// Whether the value stores its text inline.
    pub closed spec fn spec_is_inline(&self) -> bool {
        self.inner is Inline
    }

    /// The text bytes the value stores: the whole inline array, filler
    /// included, or the heap buffer. The derived `Hash` feeds the hasher
    /// these bytes together with the variant and, for the inline form, the
    /// length byte.
    pub closed spec fn stored_bytes(&self) -> Seq<u8> {
        match self.inner {
            StrTypes::Heap { text } => text.spec_bytes(),
            StrTypes::Inline { bytes, .. } => bytes@,
        }
    }

    /// The payload bytes of the stored representation are the UTF-8 encoding
    /// of the view.
    proof fn lemma_payload(&self)
        requires
            self.wf(),
        ensures
            self.spec_len() <= MAX_STR_LEN,
            self.spec_is_inline() <==> self.spec_len() <= MAX_INLINE_STR_LEN,
            match self.inner {
                StrTypes::Heap { text } => text.spec_bytes() == encode_utf8(self@),
                StrTypes::Inline { len, bytes } => bytes@.subrange(0, len as int) == encode_utf8(
                    self@,
                ),
            },
    {
        match self.inner {
            StrTypes::Heap { text } => {},
            StrTypes::Inline { len, bytes } => {
                decode_utf8_encode_utf8(bytes@.subrange(0, len as int));
            },
        }
    }

    /// The empty string, stored inline with all filler bytes zero.
    pub fn empty() -> (r: MiniImmStr)
        ensures
            r@ == Seq::<char>::empty(),
            r.wf(),
            r.spec_is_inline(),
    {
        let r = MiniImmStr { inner: StrTypes::Inline { len: 0, bytes: [0u8; 14] } };
        proof {
            assert(r.inner->bytes@.subrange(0, 0) =~= Seq::<u8>::empty());
        }
        r
    }

    /// Copies `s` into a new value: inline when it has at most fourteen
    /// bytes, else into a new buffer of exactly its length.
    pub fn from_str(s: &str) -> (r: MiniImmStr)
        requires
            utf8_len(s@) <= MAX_STR_LEN,
        ensures
            r@ == s@,
            r.wf(),
    {
        proof {
            encode_utf8_valid_utf8(s@);
            encode_utf8_decode_utf8(s@);
        }
        if s.len() > MAX_INLINE_STR_LEN {
            MiniImmStr { inner: gen_heap_str(boxed_text(s.to_owned())) }
        } else {
            let inner = gen_inline_str(s.as_bytes());
            MiniImmStr { inner }
        }
    }

    /// Builds a value from an owned string: a long one hands over its buffer
    /// (without copying when it has no spare capacity); a short one is
    /// copied inline and its buffer released.
    pub fn from_string(s: String) -> (r: MiniImmStr)
        requires
            utf8_len(s@) <= MAX_STR_LEN,
        ensures
            r@ == s@,
            r.wf(),
    {
        proof {
            encode_utf8_valid_utf8(s@);
            encode_utf8_decode_utf8(s@);
        }
        let t: &str = s.as_str();
        if t.len() > MAX_INLINE_STR_LEN {
            MiniImmStr { inner: gen_heap_str(boxed_text(s)) }
        } else {
            let inner = gen_inline_str(t.as_bytes());
            MiniImmStr { inner }
        }
    }

    /// Whether the text is stored inline: exactly when it has at most
    /// fourteen bytes.
    pub fn is_inline(&self) -> (r: bool)
        ensures
            r == self.spec_is_inline(),
            r == (self.spec_len() <= MAX_INLINE_STR_LEN),
    {
        proof {
            use_type_invariant(self);
            self.lemma_payload();
        }
        match self.inner {
            StrTypes::Heap { .. } => false,
            StrTypes::Inline { .. } => true,
        }
    }

    /// The length of the text in UTF-8 bytes.
    pub fn len(&self) -> (r: usize)
        ensures
            r == self.spec_len(),
    {
        proof {
            use_type_invariant(self);
            self.lemma_payload();
        }
        match &self.inner {
            StrTypes::Heap { text } => text.len(),
            StrTypes::Inline { len, .. } => *len as usize,
        }
    }

    /// A borrowed view of the text, without copying.
    pub fn as_str(&self) -> (r: &str)
        ensures
            r@ == self@,
    {
        proof {
            use_type_invariant(self);
            self.lemma_payload();
        }
        match &self.inner {
            StrTypes::Heap { text } => &**text,
            StrTypes::Inline { len, bytes } => inline_text(bytes, *len),
        }
    }

    /// Consumes the value and yields its text as a `String`: a heap buffer
    /// is handed over without copying, an inline payload is copied into a
    /// new one.
    pub fn into_string(self) -> (r: String)
        ensures
            r@ == self@,
    {
        proof {
            use_type_invariant(&self);
        }
        match self.inner {
            StrTypes::Heap { text } => string_of_boxed(text),
            StrTypes::Inline { len, bytes } => inline_text(&bytes, len).to_owned(),
        }
    }

    /// Consumes the value and yields its text in a buffer of exactly its
    /// length: a heap buffer is handed over as it is, an inline payload is
    /// copied into a new one.
    pub fn into_boxed_str(self) -> (r: Box<str>)
        ensures
            r@ == self@,
    {
        proof {
            use_type_invariant(&self);
        }
        match self.inner {
            StrTypes::Heap { text } => text,
            StrTypes::Inline { len, bytes } => boxed_text(inline_text(&bytes, len).to_owned()),
        }
    }
}


/// Every value is stored inline exactly when its text has at most fourteen
/// bytes, and no value holds more than `MAX_STR_LEN` bytes.
pub proof fn lemma_inline_threshold(v: &MiniImmStr)
    requires
        v.wf(),
    ensures
        v.spec_is_inline() <==> v.spec_len() <= MAX_INLINE_STR_LEN,
        v.spec_len() <= MAX_STR_LEN,
{
    v.lemma_payload();
}

/// Two values that hold the same text use the same representation and store
/// the same bytes, so structural hashing and comparison agree with the text.
pub proof fn lemma_same_text_same_storage(a: &MiniImmStr, b: &MiniImmStr)
    requires
        a.wf(),
        b.wf(),
        a@ == b@,
    ensures
        a.spec_is_inline() == b.spec_is_inline(),
        a.stored_bytes() == b.stored_bytes(),
{
    a.lemma_payload();
    b.lemma_payload();
    match (a.inner, b.inner) {
        (StrTypes::Inline { len: la, bytes: ba }, StrTypes::Inline { len: lb, bytes: bb }) => {
            assert(ba@.subrange(0, la as int).len() == la);
            assert(bb@.subrange(0, lb as int).len() == lb);
            assert forall|i: int| 0 <= i < MAX_INLINE_STR_LEN implies ba@[i] == bb@[i] by {
                if i < la {
                    assert(ba@[i] == ba@.subrange(0, la as int)[i]);
                    assert(bb@[i] == bb@.subrange(0, lb as int)[i]);
                }
            }
            assert(ba@ =~= bb@);
        },
        _ => {},
    }
}

impl PartialEq for MiniImmStr {
    /// Two values are equal when they hold the same text, whichever
    /// representation each uses.
    fn eq(&self, other: &MiniImmStr) -> (r: bool) {
        let a = self.as_str().as_bytes();
        let b = other.as_str().as_bytes();
        if a.len() != b.len() {
            return false;
        }
        let mut i: usize = 0;
        while i < a.len()
            invariant
                a@ == encode_utf8(self@),
                b@ == encode_utf8(other@),
                a@.len() == b@.len(),
                0 <= i <= a@.len(),
                forall|k: int| 0 <= k < i ==> a@[k] == b@[k],
            decreases a@.len() - i,
        {
            if a[i] != b[i] {
                proof {
                    assert(a@[i as int] != b@[i as int]);
                }
                return false;
            }
            i = i + 1;
        }
        proof {
            assert(a@ =~= b@);
            encode_utf8_decode_utf8(self@);
            encode_utf8_decode_utf8(other@);
        }
        true
    }
}

impl vstd::std_specs::cmp::PartialEqSpecImpl for MiniImmStr {
    open spec fn obeys_eq_spec() -> bool {
        true
    }

    open spec fn eq_spec(&self, other: &MiniImmStr) -> bool {
        self@ == other@
    }
}

impl Eq for MiniImmStr {

}

impl std::ops::Deref for MiniImmStr {
    type Target = str;

    /// Reads the value as a `str`, so that every text operation of `str`
    /// applies to it.
    fn deref(&self) -> (r: &str)
        ensures
            r@ == self@,
    {
        self.as_str()
    }
}


// Two strings with the same text need not be the same value (a `String`
// also has a capacity), so `from_spec` cannot name the result; each `from`
// states the text it returns in its own `ensures`.
impl From<MiniImmStr> for String {
    /// Same as `MiniImmStr::into_string`.
    fn from(v: MiniImmStr) -> (r: String)
        ensures
            r@ == v@,
    {
        v.into_string()
    }
}

impl vstd::std_specs::convert::FromSpecImpl<MiniImmStr> for String {
    open spec fn obeys_from_spec() -> bool {
        false
    }

    open spec fn from_spec(v: MiniImmStr) -> String {
        arbitrary()
    }
}

impl From<MiniImmStr> for Box<str> {
    /// Same as `MiniImmStr::into_boxed_str`.
    fn from(v: MiniImmStr) -> (r: Box<str>)
        ensures
            r@ == v@,
    {
        v.into_boxed_str()
    }
}

impl vstd::std_specs::convert::FromSpecImpl<MiniImmStr> for Box<str> {
    open spec fn obeys_from_spec() -> bool {
        false
    }

    open spec fn from_spec(v: MiniImmStr) -> Box<str> {
        arbitrary()
    }
}

} // verus!
