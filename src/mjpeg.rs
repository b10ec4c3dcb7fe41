//! Locating JPEG markers in a camera byte stream.

use vstd::prelude::*;

verus! {

/// `marker` occurs in `data` starting at `i`.
pub open spec fn marker_at(data: Seq<u8>, marker: Seq<u8>, i: int) -> bool {
    0 <= i && i + marker.len() <= data.len() && data.subrange(i, i + marker.len()) == marker
}

/// The first position at which `marker` occurs in `data`, if any.
pub fn find_marker(data: &[u8], marker: &[u8]) -> (r: Option<usize>)
    requires
        marker@.len() > 0,
    ensures
        r matches Some(i) ==> marker_at(data@, marker@, i as int),
        r matches Some(i) ==> forall|j: int| 0 <= j < i ==> !marker_at(data@, marker@, j),
        r is None ==> forall|j: int| !marker_at(data@, marker@, j),
{
    let m = marker.len();
    if m > data.len() {
        return None;
    }
    let mut i: usize = 0;
    while i <= data.len() - m
        invariant
            m == marker@.len(),
            m <= data@.len(),
            i <= data@.len() - m + 1,
            forall|j: int| 0 <= j < i ==> !marker_at(data@, marker@, j),
        decreases data@.len() - i,
    {
        let mut k: usize = 0;
        let mut same = true;
        while k < m
            invariant
                m == marker@.len(),
                i + m <= data.len(),
                k <= m,
                same <==> forall|t: int| 0 <= t < k ==> data@[i + t] == marker@[t],
            decreases m - k,
        {
            if data[i + k] != marker[k] {
                same = false;
            }
            k = k + 1;
        }
        if same {
            assert(data@.subrange(i as int, i + m) =~= marker@);
            return Some(i);
        }
        assert(!marker_at(data@, marker@, i as int)) by {
            if marker_at(data@, marker@, i as int) {
                let t = choose|t: int| 0 <= t < m && data@[i + t] != marker@[t];
                assert(data@.subrange(i as int, i + m)[t] == data@[i + t]);
            }
        }
        i = i + 1;
    }
    None
}

} // verus!
