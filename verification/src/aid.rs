//! Application identifiers and their matchers.
use vstd::prelude::*;

verus! {

/// Mathematical view of an AID matcher: the identifier's bytes and the length
/// of the prefix used when matching SELECT requests.
pub struct AidView {
    pub bytes: Seq<u8>,
    pub truncated: nat,
}

/// An application identifier: 5 to 16 bytes. An app may match SELECT requests
/// on a shorter prefix (typically its registered provider identifier).
#[derive(Clone, Debug)]
pub struct Aid {
    bytes: Vec<u8>,
    truncated_len: usize,
}

impl View for Aid {
    type V = AidView;

    closed spec fn view(&self) -> AidView {
        AidView { bytes: self.bytes@, truncated: self.truncated_len as nat }
    }
}

/// Does the identifier `target` match a matcher `a`, that is, does `target`
/// start with `a`'s matching prefix?
pub open spec fn aid_matches(a: AidView, target: Seq<u8>) -> bool {
    target.len() >= a.truncated && target.take(a.truncated as int) == a.bytes.take(
        a.truncated as int,
    )
}

/// An AID is 5 to 16 bytes long.
pub open spec fn aid_len_ok(bytes: Seq<u8>) -> bool {
    5 <= bytes.len() <= 16
}

impl Aid {
    pub open spec fn wf(self) -> bool {
        aid_len_ok(self@.bytes) && self@.truncated <= self@.bytes.len()
    }

    /// Build an AID that matches on its full length.
    pub fn try_new(bytes: &Vec<u8>) -> (r: Option<Aid>)
        ensures
            r is Some <==> aid_len_ok(bytes@),
            r matches Some(a) ==> a.wf() && a@.bytes == bytes@ && a@.truncated == bytes@.len(),
    {
        let n = bytes.len();
        Self::try_new_truncatable(bytes, n)
    }

    /// Build an AID that matches SELECT requests on its first `truncated_len`
    /// bytes only.
    pub fn try_new_truncatable(bytes: &Vec<u8>, truncated_len: usize) -> (r: Option<Aid>)
        ensures
            r is Some <==> aid_len_ok(bytes@) && truncated_len <= bytes@.len(),
            r matches Some(a) ==> a.wf() && a@.bytes == bytes@ && a@.truncated == truncated_len,
    {
        if bytes.len() < 5 || bytes.len() > 16 || truncated_len > bytes.len() {
            return None;
        }
        let copy = crate::command::copy_range(bytes, 0, bytes.len());
        assert(copy@ =~= bytes@);
        Some(Aid { bytes: copy, truncated_len })
    }

    /// The identifier's bytes.
    pub fn bytes(&self) -> (r: &Vec<u8>)
        ensures
            r@ == self@.bytes,
    {
        &self.bytes
    }

    /// Does `target` start with this AID's matching prefix?
    pub fn matches(&self, target: &Vec<u8>) -> (r: bool)
        requires
            self.wf(),
        ensures
            r == aid_matches(self@, target@),
    {
        if target.len() < self.truncated_len {
            return false;
        }
        let mut k: usize = 0;
        while k < self.truncated_len
            invariant
                0 <= k <= self.truncated_len,
                self.truncated_len <= target@.len(),
                self.truncated_len <= self.bytes@.len(),
                forall|i: int| 0 <= i < k ==> target@[i] == self.bytes@[i],
            decreases self.truncated_len - k,
        {
            if target[k] != self.bytes[k] {
                assert(target@.take(self.truncated_len as int)[k as int] != self.bytes@.take(
                    self.truncated_len as int,
                )[k as int]);
                return false;
            }
            k = k + 1;
        }
        assert(target@.take(self.truncated_len as int) =~= self.bytes@.take(
            self.truncated_len as int,
        ));
        true
    }

    /// Do two AIDs name the same application (byte-for-byte equal identifiers)?
    pub fn same_id(&self, other: &Aid) -> (r: bool)
        ensures
            r == (self@.bytes == other@.bytes),
    {
        if self.bytes.len() != other.bytes.len() {
            return false;
        }
        let n = self.bytes.len();
        let mut k: usize = 0;
        while k < n
            invariant
                0 <= k <= n,
                n == self.bytes@.len() == other.bytes@.len(),
                forall|i: int| 0 <= i < k ==> self.bytes@[i] == other.bytes@[i],
            decreases n - k,
        {
            if self.bytes[k] != other.bytes[k] {
                return false;
            }
            k = k + 1;
        }
        assert(self.bytes@ =~= other.bytes@);
        true
    }
}

} // verus!
