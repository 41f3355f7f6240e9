//! The visualizer's choice of audio source: the first capture device that
//! names itself a monitor (the loopback of an output), else the default.
use vstd::prelude::*;

use crate::text::chars_of;

verus! {

/// Number of spectrum bars.
pub const BAR_COUNT: usize = 20;

/// Name for what `str::to_lowercase` makes of a string.
pub uninterp spec fn lowercase(s: Seq<char>) -> Seq<char>;

/// `str::to_lowercase` (Unicode `Lowercase` mapping). Stated: the result
/// is `lowercase` of the string.
#[verifier::external_body]
fn to_lower(s: &str) -> (r: String)
    ensures
        r@ == lowercase(s@),
{
    s.to_lowercase()
}

/// Does `needle` occur in `hay` at `i`?
pub open spec fn occurs_at(hay: Seq<char>, needle: Seq<char>, i: int) -> bool {
    0 <= i && i + needle.len() <= hay.len() && hay.subrange(i, i + needle.len()) == needle
}

/// Does `needle` occur anywhere in `hay`?
pub open spec fn occurs(hay: Seq<char>, needle: Seq<char>) -> bool {
    exists|i: int| occurs_at(hay, needle, i)
}

fn occurs_here(hay: &Vec<char>, needle: &Vec<char>, i: usize) -> (b: bool)
    requires
        i + needle@.len() <= hay@.len(),
    ensures
        b == occurs_at(hay@, needle@, i as int),
{
    assert(hay@.len() == hay.len());
    let mut j: usize = 0;
    while j < needle.len()
        invariant
            hay@.len() <= usize::MAX,
            i + needle@.len() <= hay@.len(),
            j <= needle@.len(),
            forall|k: int| 0 <= k < j ==> hay@[i + k] == needle@[k],
        decreases needle@.len() - j,
    {
        if hay[i + j] != needle[j] {
            assert(hay@.subrange(i as int, i + needle@.len())[j as int] != needle@[j as int]);
            return false;
        }
        j = j + 1;
    }
    assert(hay@.subrange(i as int, i + needle@.len()) =~= needle@);
    true
}

/// `str::contains` for a string pattern.
pub fn contains_text(hay: &str, needle: &str) -> (b: bool)
    ensures
        b == occurs(hay@, needle@),
{
    let h = chars_of(hay);
    let n = chars_of(needle);
    if n.len() > h.len() {
        assert forall|i: int| !occurs_at(hay@, needle@, i) by {}
        return false;
    }
    let last: usize = h.len() - n.len();
    let mut i: usize = 0;
    loop
        invariant
            h@ == hay@,
            n@ == needle@,
            n@.len() <= h@.len(),
            last == h@.len() - n@.len(),
            i <= last,
            forall|k: int| 0 <= k < i ==> !occurs_at(hay@, needle@, k),
        ensures
            forall|k: int| 0 <= k <= last ==> !occurs_at(hay@, needle@, k),
        decreases last - i,
    {
        if occurs_here(&h, &n, i) {
            return true;
        }
        if i == last {
            break;
        }
        i = i + 1;
    }
    assert forall|k: int| !occurs_at(hay@, needle@, k) by {
        if 0 <= k <= last {
        }
    }
    false
}

/// Is this device name, lowercased, one that contains "monitor"?
pub open spec fn is_monitor(name: Option<Seq<char>>) -> bool {
    match name {
        Some(n) => occurs(lowercase(n), "monitor"@),
        None => false,
    }
}

/// Index of the first device whose name marks it a monitor, given the
/// devices' names (`None` where a name could not be read).
pub fn monitor_device(names: &Vec<Option<String>>) -> (r: Option<usize>)
    ensures
        match r {
            Some(i) => i < names@.len() && is_monitor(crate::app::opt_view(names@[i as int]))
                && forall|j: int| 0 <= j < i ==> !is_monitor(crate::app::opt_view(names@[j])),
            None => forall|j: int|
                0 <= j < names@.len() ==> !is_monitor(crate::app::opt_view(names@[j])),
        },
{
    let mut i: usize = 0;
    while i < names.len()
        invariant
            i <= names@.len(),
            forall|j: int| 0 <= j < i ==> !is_monitor(crate::app::opt_view(names@[j])),
        decreases names@.len() - i,
    {
        match &names[i] {
            Some(n) => {
                let low = to_lower(n.as_str());
                if contains_text(low.as_str(), "monitor") {
                    return Some(i);
                }
            },
            None => {},
        }
        i = i + 1;
    }
    None
}

} // verus!
