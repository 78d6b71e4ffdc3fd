//! Truncating, zero-padding copies into fixed-capacity buffers.
use vstd::prelude::*;
use vstd::string::StringSliceAdditionalSpecFns;
use vstd::utf8::valid_utf8;

verus! {

/// The first `n` items of `src`, cut short or padded with `fill` to exactly `n`.
pub open spec fn padded<T>(src: Seq<T>, n: nat, fill: T) -> Seq<T> {
    Seq::new(n, |i: int| if i < src.len() { src[i] } else { fill })
}

/// The bytes of a text, padded to `n`, with the last byte cleared so that a
/// non-empty buffer always ends in a zero byte.
pub open spec fn padded_text(bytes: Seq<u8>, n: nat) -> Seq<u8> {
    if n == 0 {
        Seq::empty()
    } else {
        padded(bytes, n, 0u8).update(n - 1, 0u8)
    }
}

/// Copies `min(src.len(), N)` items of `src` into a fresh array whose other
/// slots hold `fill` (the type's zero value, for the integer types).
pub fn safe_copy<T: Copy, const N: usize>(src: &[T], fill: T) -> (r: [T; N])
    ensures
        r@ == padded(src@, N as nat, fill),
{
    let mut ret: [T; N] = [fill; N];
    let n: usize = if src.len() < N { src.len() } else { N };
    let mut i: usize = 0;
    while i < n
        invariant
            n <= N,
            n <= src@.len(),
            i <= n,
            ret@.len() == N,
            forall|j: int| 0 <= j < i ==> ret@[j] == src@[j],
            forall|j: int| i <= j < N ==> ret@[j] == fill,
        decreases n - i,
    {
        ret[i] = src[i];
        i = i + 1;
    }
    assert(ret@ =~= padded(src@, N as nat, fill));
    ret
}

/// Fills a fixed-capacity array from a value that may be longer or shorter
/// than the array.
pub trait SafeCopy<Item, const N: usize> {
    /// The array that the copy yields.
    spec fn copy_result(&self) -> Seq<Item>;

    fn safe_copy(&self) -> (r: [Item; N])
        ensures
            r@ == self.copy_result(),
    ;
}

impl<const N: usize> SafeCopy<u8, N> for &[u8] {
    open spec fn copy_result(&self) -> Seq<u8> {
        padded(self@, N as nat, 0u8)
    }

    fn safe_copy(&self) -> (r: [u8; N]) {
        safe_copy(*self, 0u8)
    }
}

impl<const N: usize> SafeCopy<i8, N> for &[i8] {
    open spec fn copy_result(&self) -> Seq<i8> {
        padded(self@, N as nat, 0i8)
    }

    fn safe_copy(&self) -> (r: [i8; N]) {
        safe_copy(*self, 0i8)
    }
}

impl<const N: usize> SafeCopy<u8, N> for &str {
    open spec fn copy_result(&self) -> Seq<u8> {
        padded_text(self.spec_bytes(), N as nat)
    }

    fn safe_copy(&self) -> (r: [u8; N]) {
        let mut ret: [u8; N] = safe_copy(self.as_bytes(), 0u8);
        if N > 0 {
            ret[N - 1] = 0;
        }
        assert(ret@ =~= padded_text(self.spec_bytes(), N as nat));
        ret
    }
}

/// The number of bytes before the first zero byte (all of them if none is
/// zero).
pub open spec fn text_len(b: Seq<u8>) -> nat
    decreases b.len(),
{
    if b.len() == 0 || b[0] == 0 {
        0
    } else {
        1 + text_len(b.drop_first())
    }
}

/// The text a buffer holds: its bytes up to the first zero byte, or empty
/// text where those bytes are not UTF-8.
pub open spec fn buffer_text(b: Seq<u8>) -> Seq<u8> {
    let t = b.subrange(0, text_len(b) as int);
    if valid_utf8(t) { t } else { Seq::empty() }
}

/// The text length is the index of the first zero byte.
pub proof fn lemma_text_len(b: Seq<u8>, k: int)
    requires
        0 <= k <= b.len(),
        forall|i: int| 0 <= i < k ==> b[i] != 0,
        k == b.len() || b[k] == 0,
    ensures
        text_len(b) == k,
    decreases k,
{
    if k > 0 {
        lemma_text_len(b.drop_first(), k - 1);
    }
}

/// Relies on `core::str::from_utf8`: the text whose UTF-8 encoding is `b`,
/// where `b` is valid UTF-8.
#[verifier::external_body]
fn utf8_text(b: &[u8]) -> (r: Option<&str>)
    ensures
        r is Some <==> valid_utf8(b@),
        r is Some ==> r->0.spec_bytes() == b@,
{
    core::str::from_utf8(b).ok()
}

/// Reads a fixed-capacity buffer back as text: the bytes up to the first
/// zero byte, or empty text where they are not UTF-8.
pub fn text_of(bytes: &[u8]) -> (r: &str)
    ensures
        r.spec_bytes() == buffer_text(bytes@),
{
    let n = bytes.len();
    let mut k: usize = 0;
    while k < n && bytes[k] != 0
        invariant
            n == bytes@.len(),
            k <= n,
            forall|i: int| 0 <= i < k ==> bytes@[i] != 0,
        decreases n - k,
    {
        k = k + 1;
    }
    proof {
        lemma_text_len(bytes@, k as int);
    }
    let t = &bytes[0..k];
    match utf8_text(t) {
        Some(s) => s,
        None => {
            proof {
                reveal_strlit("");
            }
            let e = "";
            assert(e.spec_bytes() =~= Seq::<u8>::empty());
            e
        },
    }
}

/// The unwinding hook of a freestanding build. A hosted build unwinds through
/// std, so there is nothing to do here.
pub fn eh_personality() {
}

} // verus!
