//! The index from pixel width to the icon-theme directory that holds icons of
//! that size, built from the directory entries of an icon theme.

use vstd::prelude::*;
use std::collections::HashMap;
use crate::extractors::is_digit;
use crate::text::{find_char, first_index_of};

verus! {

broadcast use vstd::std_specs::hash::group_hash_axioms;

/// The value of an ASCII digit.
pub open spec fn digit_value(c: char) -> int {
    (c as int) - ('0' as int)
}

/// Whether every character of `s` is a digit.
pub open spec fn all_digits(s: Seq<char>) -> bool {
    forall|k: int| 0 <= k < s.len() ==> is_digit(#[trigger] s[k])
}

/// The number that the digits `s` write in decimal.
pub open spec fn decimal_value(s: Seq<char>) -> int
    decreases s.len(),
{
    if s.len() == 0 {
        0
    } else {
        decimal_value(s.drop_last()) * 10 + digit_value(s.last())
    }
}

/// The resolution that a path segment names: the digits before its first
/// `x`, where there is at least one and they fit in a `u32`.
pub open spec fn segment_resolution(seg: Seq<char>) -> Option<u32> {
    match first_index_of(seg, 'x') {
        Some(i) => {
            let d = seg.subrange(0, i);
            if i > 0 && all_digits(d) && decimal_value(d) <= u32::MAX {
                Some(decimal_value(d) as u32)
            } else {
                None
            }
        },
        None => None,
    }
}

/// The resolution that a path names: that of its first segment that names one.
pub open spec fn path_resolution(segs: Seq<Seq<char>>) -> Option<u32>
    decreases segs.len(),
{
    if segs.len() == 0 {
        None
    } else {
        match segment_resolution(segs[0]) {
            Some(w) => Some(w),
            None => path_resolution(segs.drop_first()),
        }
    }
}

proof fn lemma_decimal_nonneg_mono(s: Seq<char>, k: int)
    requires
        0 <= k <= s.len(),
        all_digits(s),
    ensures
        0 <= decimal_value(s.subrange(0, k)) <= decimal_value(s),
    decreases s.len(),
{
    if k < s.len() {
        let t = s.drop_last();
        assert(t.subrange(0, k) =~= s.subrange(0, k));
        assert(all_digits(t)) by {
            assert forall|j: int| 0 <= j < t.len() implies is_digit(#[trigger] t[j]) by {
                assert(t[j] == s[j]);
            }
        }
        lemma_decimal_nonneg_mono(t, k);
        assert(is_digit(s[s.len() - 1]));
    } else {
        assert(s.subrange(0, k) =~= s);
        if s.len() > 0 {
            let t = s.drop_last();
            assert(all_digits(t)) by {
                assert forall|j: int| 0 <= j < t.len() implies is_digit(#[trigger] t[j]) by {
                    assert(t[j] == s[j]);
                }
            }
            lemma_decimal_nonneg_mono(t, t.len() as int);
            assert(t.subrange(0, t.len() as int) =~= t);
            assert(is_digit(s[s.len() - 1]));
        }
    }
}

/// The resolution that a path segment names, if it names one.
pub fn resolution_of_segment(seg: &str) -> (r: Option<u32>)
    ensures
        r == segment_resolution(seg@),
{
    let i = match find_char(seg, 'x') {
        Some(i) => i,
        None => {
            return None;
        },
    };
    if i == 0 {
        return None;
    }
    let ghost d = seg@.subrange(0, i as int);
    let mut v: u64 = 0;
    let mut k: usize = 0;
    while k < i
        invariant
            i < seg@.len(),
            first_index_of(seg@, 'x') == Some(i as int),
            d == seg@.subrange(0, i as int),
            k <= i,
            v as int == decimal_value(d.subrange(0, k as int)),
            v <= u32::MAX,
            all_digits(d.subrange(0, k as int)),
        decreases i - k,
    {
        let c = seg.get_char(k);
        assert(d[k as int] == c);
        assert(d.subrange(0, k + 1).drop_last() =~= d.subrange(0, k as int));
        assert(d.subrange(0, k + 1).last() == c);
        if !('0' <= c && c <= '9') {
            assert(!all_digits(d));
            return None;
        }
        v = v * 10 + (c as u64 - '0' as u64);
        assert(v as int == decimal_value(d.subrange(0, k + 1)));
        if v > 0xffff_ffffu64 {
            proof {
                assert(all_digits(d.subrange(0, k + 1))) by {
                    let e = d.subrange(0, k + 1);
                    assert forall|j: int| 0 <= j < e.len() implies is_digit(#[trigger] e[j]) by {
                        if j < k {
                            assert(e[j] == d.subrange(0, k as int)[j]);
                        }
                    }
                }
                if all_digits(d) {
                    lemma_decimal_nonneg_mono(d, k + 1);
                }
            }
            return None;
        }
        proof {
            let e = d.subrange(0, k + 1);
            assert forall|j: int| 0 <= j < e.len() implies is_digit(#[trigger] e[j]) by {
                if j < k {
                    assert(e[j] == d.subrange(0, k as int)[j]);
                }
            }
        }
        k = k + 1;
    }
    assert(d.subrange(0, i as int) =~= d);
    Some(v as u32)
}

/// A directory entry of an icon theme: the segments of its path, and the
/// path itself.
pub struct ScannedEntry {
    pub segments: Vec<String>,
    pub path: String,
}

/// The segments of a path as character sequences.
pub open spec fn segments_view(segs: Seq<String>) -> Seq<Seq<char>> {
    segs.map_values(|s: String| s@)
}

/// The index that scanning `es` in order builds: each entry whose path names
/// a resolution maps it to the entry's path, and a later entry replaces an
/// earlier one of the same resolution.
pub open spec fn scan_index(es: Seq<ScannedEntry>) -> Map<u32, Seq<char>>
    decreases es.len(),
{
    if es.len() == 0 {
        Map::empty()
    } else {
        let m = scan_index(es.drop_last());
        match path_resolution(segments_view(es.last().segments@)) {
            Some(w) => m.insert(w, es.last().path@),
            None => m,
        }
    }
}

/// The resolution that a path, given as its segments, names.
pub fn resolution_of_entry(segments: &Vec<String>) -> (r: Option<u32>)
    ensures
        r == path_resolution(segments_view(segments@)),
{
    let ghost all = segments_view(segments@);
    let mut i: usize = 0;
    assert(all.subrange(0, all.len() as int) =~= all);
    while i < segments.len()
        invariant
            all == segments_view(segments@),
            i <= segments.len(),
            path_resolution(all) == path_resolution(all.subrange(i as int, all.len() as int)),
        decreases segments.len() - i,
    {
        let ghost rest = all.subrange(i as int, all.len() as int);
        assert(rest[0] == segments@[i as int]@);
        assert(rest.drop_first() =~= all.subrange(i + 1, all.len() as int));
        match resolution_of_segment(segments[i].as_str()) {
            Some(w) => {
                return Some(w);
            },
            None => {},
        }
        i = i + 1;
    }
    None
}

/// The directory for each pixel width.
pub struct ResolutionIndex {
    dirs: HashMap<u32, String>,
}

impl View for ResolutionIndex {
    type V = Map<u32, Seq<char>>;

    closed spec fn view(&self) -> Map<u32, Seq<char>> {
        Map::new(|w: u32| self.dirs@.contains_key(w), |w: u32| self.dirs@[w]@)
    }
}

impl ResolutionIndex {
    /// The index without any directory.
    pub fn new() -> (r: ResolutionIndex)
        ensures
            r@ == Map::<u32, Seq<char>>::empty(),
    {
        let r = ResolutionIndex { dirs: HashMap::new() };
        assert(r@ =~= Map::<u32, Seq<char>>::empty());
        r
    }

    /// Maps `width` to `dir`, in place of any directory it had.
    pub fn insert(&mut self, width: u32, dir: String)
        ensures
            final(self)@ == old(self)@.insert(width, dir@),
    {
        self.dirs.insert(width, dir);
        assert(self@ =~= old(self)@.insert(width, dir@));
    }

    /// The directory for `width`, if there is one.
    pub fn dir_for(&self, width: u32) -> (r: Option<String>)
        ensures
            match r {
                Some(d) => self@.contains_key(width) && d@ == self@[width],
                None => !self@.contains_key(width),
            },
    {
        match self.dirs.get(&width) {
            Some(d) => Some(d.clone()),
            None => None,
        }
    }
}

/// Builds the index from the entries of an icon theme's directory, scanned in
/// the order given.
pub fn get_resolutions(entries: &Vec<ScannedEntry>) -> (r: ResolutionIndex)
    ensures
        r@ == scan_index(entries@),
{
    let mut index = ResolutionIndex::new();
    let mut i: usize = 0;
    while i < entries.len()
        invariant
            i <= entries.len(),
            index@ == scan_index(entries@.subrange(0, i as int)),
        decreases entries.len() - i,
    {
        let ghost pre = entries@.subrange(0, i + 1);
        assert(pre.drop_last() =~= entries@.subrange(0, i as int));
        assert(pre.last() == entries@[i as int]);
        match resolution_of_entry(&entries[i].segments) {
            Some(w) => {
                index.insert(w, entries[i].path.clone());
            },
            None => {},
        }
        i = i + 1;
    }
    assert(entries@.subrange(0, entries.len() as int) =~= entries@);
    index
}

} // verus!
