//! The decisions of the zero-configuration discovery loop.
//!
//! The surrounding process runs the multicast daemon on its own thread:
//! registering this instance under the fixed service type, browsing for
//! others, and dialing what these functions approve. What to register as,
//! whether a resolved instance is this instance advertising back, and which
//! address to dial are decided here.

use vstd::prelude::*;
use vstd::string::StrSliceExecFns;
use vstd::string::StringExecFns;

verus! {

/// Whether the needle occurs contiguously in the haystack.
pub open spec fn contains_seq(hay: Seq<char>, needle: Seq<char>) -> bool {
    exists|i: int|
        0 <= i <= hay.len() - needle.len() && #[trigger] hay.subrange(i, i + needle.len())
            == needle
}

fn match_at(hay: &str, needle: &str, i: usize) -> (r: bool)
    requires
        i + needle@.len() <= hay@.len(),
        hay@.len() <= usize::MAX,
    ensures
        r == (hay@.subrange(i as int, i + needle@.len()) == needle@),
{
    let nn = needle.unicode_len();
    let mut j: usize = 0;
    while j < nn
        invariant
            j <= nn,
            nn == needle@.len(),
            i + nn <= hay@.len(),
            hay@.len() <= usize::MAX,
            forall|m: int| 0 <= m < j ==> hay@[i + m] == needle@[m],
        decreases nn - j,
    {
        if hay.get_char(i + j) != needle.get_char(j) {
            proof {
                assert(hay@.subrange(i as int, i + needle@.len())[j as int] == hay@[i + j]);
            }
            return false;
        }
        j = j + 1;
    }
    proof {
        assert(hay@.subrange(i as int, i + needle@.len()) =~= needle@);
    }
    true
}

/// Substring search, as the discovery loop's name check applies it.
pub fn contains_str(hay: &str, needle: &str) -> (r: bool)
    ensures
        r == contains_seq(hay@, needle@),
{
    let nh = hay.unicode_len();
    let nn = needle.unicode_len();
    if nn == 0 {
        proof {
            let i0: int = 0;
            assert(hay@.subrange(i0, i0 + needle@.len()) =~= needle@);
            assert(contains_seq(hay@, needle@));
        }
        return true;
    }
    if nn > nh {
        proof {
            if contains_seq(hay@, needle@) {
                let i = choose|i: int|
                    0 <= i <= hay@.len() - needle@.len() && #[trigger] hay@.subrange(
                        i,
                        i + needle@.len(),
                    ) == needle@;
                assert(false);
            }
        }
        return false;
    }
    let mut i: usize = 0;
    while i <= nh - nn
        invariant
            1 <= nn <= nh,
            nh == hay@.len(),
            nn == needle@.len(),
            i <= nh - nn + 1,
            forall|k: int| 0 <= k < i ==> #[trigger] hay@.subrange(k, k + needle@.len())
                != needle@,
        decreases nh + 1 - i,
    {
        if match_at(hay, needle, i) {
            assert(contains_seq(hay@, needle@));
            return true;
        }
        i = i + 1;
    }
    proof {
        if contains_seq(hay@, needle@) {
            let k = choose|k: int|
                0 <= k <= hay@.len() - needle@.len() && #[trigger] hay@.subrange(
                    k,
                    k + needle@.len(),
                ) == needle@;
            assert(k < i);
            assert(false);
        }
    }
    false
}

/// The name-based self-skip of the discovery loop: a resolved instance whose
/// full service name carries this instance's own identity is this instance
/// advertising back, and is not dialed. Address-based self-detection is a
/// separate, independent guard.
pub fn discovery_should_dial(fullname: &str, self_id: &str) -> (r: bool)
    ensures
        r == !contains_seq(fullname@, self_id@),
{
    !contains_str(fullname, self_id)
}

/// The dial target for one resolved address of a discovered instance: every
/// instance listens on the fixed port.
pub fn discovery_dial_target(addr: &str) -> (r: String)
    ensures
        r@ == addr@ + ":4747"@,
{
    let mut s = addr.to_owned();
    s.append(":4747");
    s
}

/// The host name this instance registers with the multicast daemon.
pub fn mdns_host_name(local_host: &str) -> (r: String)
    ensures
        r@ == local_host@ + ".local."@,
{
    let mut s = local_host.to_owned();
    s.append(".local.");
    s
}

} // verus!
