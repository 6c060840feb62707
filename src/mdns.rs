//! How a service registration type (such as `_matter._tcp`) is published over
//! mDNS: the service type is the part before the first `.`, and the transport
//! protocol is UDP when the registration type mentions `_udp`, else TCP.
use vstd::prelude::*;
use vstd::string::StringSliceAdditionalSpecFns;

verus! {

/// `b` holds the bytes `_udp` somewhere.
pub open spec fn mentions_udp(b: Seq<u8>) -> bool {
    exists|i: int|
        0 <= i && i + 4 <= b.len() && #[trigger] b[i] == 0x5f && b[i + 1] == 0x75 && b[i + 2] == 0x64
            && b[i + 3] == 0x70
}

/// Length in bytes of the service type that `regtype` names: everything
/// before its first `.`.
pub fn service_type_len(regtype: &str) -> (r: usize)
    ensures
        r <= regtype.spec_bytes().len(),
        forall|j: int| 0 <= j < r ==> regtype.spec_bytes()[j] != 0x2e,
        r < regtype.spec_bytes().len() ==> regtype.spec_bytes()[r as int] == 0x2e,
{
    let b = regtype.as_bytes();
    let mut i: usize = 0;
    while i < b.len()
        invariant
            i <= b@.len(),
            b@ == regtype.spec_bytes(),
            forall|j: int| 0 <= j < i ==> b@[j] != 0x2e,
        decreases b@.len() - i,
    {
        if b[i] == 0x2e {
            return i;
        }
        i = i + 1;
    }
    i
}

/// Whether `regtype` asks for UDP transport.
pub fn is_udp(regtype: &str) -> (r: bool)
    ensures
        r == mentions_udp(regtype.spec_bytes()),
{
    let b = regtype.as_bytes();
    let n = b.len();
    let mut i: usize = 0;
    while n >= 4 && i <= n - 4
        invariant
            b@ == regtype.spec_bytes(),
            n == b@.len(),
            n >= 4 ==> i <= n - 3,
            n < 4 ==> i == 0,
            forall|k: int|
                0 <= k < i && k + 4 <= n ==> !(#[trigger] b@[k] == 0x5f && b@[k + 1] == 0x75 && b@[k + 2] == 0x64
                    && b@[k + 3] == 0x70),
        decreases n + 1 - i,
    {
        if b[i] == 0x5f && b[i + 1] == 0x75 && b[i + 2] == 0x64 && b[i + 3] == 0x70 {
            return true;
        }
        i = i + 1;
    }
    false
}

} // verus!
