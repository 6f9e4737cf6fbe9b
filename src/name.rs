use vstd::prelude::*;

use crate::headers::SectionHeader;

verus! {

/// The text that lossy UTF-8 decoding makes of `b`.
pub uninterp spec fn lossy_utf8(b: Seq<u8>) -> Seq<char>;

/// Relies on `String::from_utf8_lossy`: invalid UTF-8 sequences become
/// U+FFFD and the call never fails; ASCII bytes stand for themselves.
#[verifier::external_body]
fn lossy_text(b: &[u8]) -> (r: String)
    ensures
        r@ == lossy_utf8(b@),
        (forall|i: int| 0 <= i < b@.len() ==> #[trigger] b@[i] < 128) ==> r@ == b@.map_values(
            |c: u8| c as char,
        ),
{
    String::from_utf8_lossy(b).into_owned()
}

/// `k` is where the name `n` ends: at its first NUL byte, else at its end.
pub open spec fn is_name_end(n: Seq<u8>, k: int) -> bool {
    &&& 0 <= k <= n.len()
    &&& forall|i: int| 0 <= i < k ==> #[trigger] n[i] != 0
    &&& k < n.len() ==> n[k] == 0
}

impl SectionHeader {
    /// The length of the section name: the bytes before its first NUL.
    pub fn name_len(&self) -> (k: usize)
        ensures
            is_name_end(self.name@, k as int),
    {
        let mut k: usize = 0;
        while k < 8 && self.name[k] != 0
            invariant
                k <= 8,
                forall|i: int| 0 <= i < k ==> #[trigger] self.name@[i] != 0,
            decreases 8 - k,
        {
            k = k + 1;
        }
        k
    }

    /// The section name as text: the bytes before the first NUL, decoded
    /// loss-tolerantly, so that any bytes give some text and never an error.
    pub fn name_text(&self) -> (r: String)
        ensures
            exists|k: int| is_name_end(self.name@, k) && r@ == lossy_utf8(self.name@.take(k)),
    {
        let k = self.name_len();
        let mut prefix: Vec<u8> = Vec::new();
        let mut i: usize = 0;
        while i < k
            invariant
                k <= 8,
                i <= k,
                prefix@ == self.name@.take(i as int),
            decreases k - i,
        {
            prefix.push(self.name[i]);
            assert(self.name@.take(i as int + 1) =~= self.name@.take(i as int).push(self.name@[i as int]));
            i = i + 1;
        }
        lossy_text(prefix.as_slice())
    }
}

} // verus!
