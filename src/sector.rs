//! Sectors: the ids given to sector folders at load, and what their image
//! files are.
use vstd::prelude::*;
use crate::problems::{lower_of, lowercase};

verus! {

/// Whether `s` ends with `suffix`.
pub open spec fn has_suffix(s: Seq<char>, suffix: Seq<char>) -> bool {
    suffix.len() <= s.len() && s.subrange(s.len() - suffix.len(), s.len() as int) == suffix
}

/// Relies on str::ends_with with a string pattern: whether `s` ends with `suffix`.
#[verifier::external_body]
fn ends_with_str(s: &str, suffix: &str) -> (r: bool)
    ensures
        r == has_suffix(s@, suffix@),
{
    s.ends_with(suffix)
}

/// The content type served for a sector image, by its file name.
pub fn image_content_type(filename: &str) -> (r: &'static str)
    ensures
        r@ == if has_suffix(filename@, ".png"@) {
            "image/png"@
        } else if has_suffix(filename@, ".jpg"@) || has_suffix(filename@, ".jpeg"@) {
            "image/jpeg"@
        } else {
            "application/octet-stream"@
        },
{
    if ends_with_str(filename, ".png") {
        "image/png"
    } else if ends_with_str(filename, ".jpg") || ends_with_str(filename, ".jpeg") {
        "image/jpeg"
    } else {
        "application/octet-stream"
    }
}

/// Whether a lowercased file name is that of a JPEG or PNG image.
pub fn is_image_folded(folded: &str) -> (r: bool)
    ensures
        r == (has_suffix(folded@, ".jpg"@) || has_suffix(folded@, ".jpeg"@) || has_suffix(folded@, ".png"@)),
{
    ends_with_str(folded, ".jpg") || ends_with_str(folded, ".jpeg") || ends_with_str(folded, ".png")
}

/// Whether a file name is that of a JPEG or PNG image, whatever its case.
pub fn is_image_filename(filename: &str) -> (r: bool)
    ensures
        ({
            let l = lower_of(filename@);
            r == (has_suffix(l, ".jpg"@) || has_suffix(l, ".jpeg"@) || has_suffix(l, ".png"@))
        }),
{
    let folded = lowercase(filename);
    is_image_folded(folded.as_str())
}

/// The largest id already given, or 0.
pub open spec fn max_given(ids: Seq<Option<u16>>) -> int
    decreases ids.len(),
{
    if ids.len() == 0 {
        0
    } else {
        let rest = max_given(ids.drop_last());
        match ids.last() {
            Some(x) => if x > rest { x as int } else { rest },
            None => rest,
        }
    }
}

/// How many of the first `n` sectors have no id yet.
pub open spec fn missing_upto(ids: Seq<Option<u16>>, n: int) -> int
    decreases n,
{
    if n <= 0 {
        0
    } else {
        missing_upto(ids, n - 1) + if ids[n - 1] is None { 1int } else { 0int }
    }
}

/// The id of sector `i`: its own, else the next after the largest given,
/// counting the sectors without an id in order.
pub open spec fn assigned_id(ids: Seq<Option<u16>>, i: int) -> int {
    match ids[i] {
        Some(x) => x as int,
        None => max_given(ids) + missing_upto(ids, i + 1),
    }
}

proof fn lemma_missing_monotonic(ids: Seq<Option<u16>>, a: int, b: int)
    requires
        0 <= a <= b <= ids.len(),
    ensures
        missing_upto(ids, a) <= missing_upto(ids, b),
    decreases b - a,
{
    if a < b {
        lemma_missing_monotonic(ids, a, b - 1);
    }
}

/// Gives each sector, in order, its id (see `assigned_id`).
pub fn assign_sector_ids(ids: &Vec<Option<u16>>) -> (r: Vec<u16>)
    requires
        max_given(ids@) + missing_upto(ids@, ids@.len() as int) <= u16::MAX,
    ensures
        r@.len() == ids@.len(),
        forall|i: int| 0 <= i < ids@.len() ==> r@[i] == assigned_id(ids@, i),
{
    let mut largest: u16 = 0;
    let mut i: usize = 0;
    while i < ids.len()
        invariant
            i <= ids@.len(),
            largest as int == max_given(ids@.take(i as int)),
        decreases ids@.len() - i,
    {
        assert(ids@.take(i as int + 1).drop_last() == ids@.take(i as int));
        match ids[i] {
            Some(x) => if x > largest {
                largest = x;
            },
            None => {},
        }
        i = i + 1;
    }
    assert(ids@.take(i as int) == ids@);
    let mut r: Vec<u16> = Vec::new();
    let mut next: u16 = largest;
    let mut k: usize = 0;
    while k < ids.len()
        invariant
            k <= ids@.len(),
            largest as int == max_given(ids@),
            max_given(ids@) + missing_upto(ids@, ids@.len() as int) <= u16::MAX,
            next as int == largest + missing_upto(ids@, k as int),
            r@.len() == k,
            forall|j: int| 0 <= j < k ==> r@[j] == assigned_id(ids@, j),
        decreases ids@.len() - k,
    {
        proof {
            lemma_missing_monotonic(ids@, k as int + 1, ids@.len() as int);
        }
        match ids[k] {
            Some(x) => {
                r.push(x);
            },
            None => {
                next = next + 1;
                r.push(next);
            },
        }
        k = k + 1;
    }
    r
}

} // verus!
