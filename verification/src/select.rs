//! Newest-image selection: file-name anatomy (stem and extension), the fixed
//! allow-list of image extensions, and the policy that picks the most recently
//! modified image among the entries of a scanned directory.
use vstd::prelude::*;

verus! {

/// One directory entry handed in by the caller: the file's name (its last
/// path component) and its last-modified time, in nanoseconds since an
/// arbitrary fixed epoch.
pub struct ScanEntry {
    pub name: String,
    pub mtime: u128,
}

/// Index of the last `.` that separates a stem from an extension, or `0` when
/// there is none. A dot at position `0` never separates: a name that starts
/// with a dot and has no later dot is all stem.
pub open spec fn last_sep(s: Seq<char>) -> int
    decreases s.len(),
{
    if s.len() <= 1 {
        0
    } else if s[s.len() - 1] == '.' {
        s.len() - 1
    } else {
        last_sep(s.drop_last())
    }
}

/// The extension of a file name: what follows the last separating dot, or
/// nothing when no dot separates.
pub open spec fn extension_of(s: Seq<char>) -> Option<Seq<char>> {
    if last_sep(s) >= 1 {
        Some(s.subrange(last_sep(s) + 1, s.len() as int))
    } else {
        None
    }
}

/// The stem of a file name: what precedes the last separating dot, or the
/// whole name when no dot separates.
pub open spec fn stem_of(s: Seq<char>) -> Seq<char> {
    if last_sep(s) >= 1 {
        s.subrange(0, last_sep(s))
    } else {
        s
    }
}

proof fn lemma_last_sep_bounds(s: Seq<char>)
    ensures
        0 <= last_sep(s),
        s.len() <= 1 ==> last_sep(s) == 0,
        s.len() > 1 ==> last_sep(s) < s.len(),
        last_sep(s) >= 1 ==> s[last_sep(s)] == '.',
    decreases s.len(),
{
    if s.len() > 1 && s[s.len() - 1] != '.' {
        lemma_last_sep_bounds(s.drop_last());
    }
}

/// Finds the index of the last separating dot of `name`, or `0` when no dot
/// separates.
fn find_last_sep(name: &str) -> (r: usize)
    ensures
        r as int == last_sep(name@),
{
    let n = name.unicode_len();
    if n <= 1 {
        return 0;
    }
    let mut i = n - 1;
    proof {
        assert(name@.take(n as int) =~= name@);
    }
    loop
        invariant
            1 <= i < n,
            n == name@.len(),
            last_sep(name@) == last_sep(name@.take(i + 1)),
        decreases i,
    {
        if name.get_char(i) == '.' {
            proof {
                assert(name@.take(i + 1).last() == name@[i as int]);
            }
            return i;
        }
        proof {
            assert(name@.take(i + 1).last() == name@[i as int]);
            assert(name@.take(i + 1).drop_last() =~= name@.take(i as int));
        }
        if i == 1 {
            proof {
                assert(last_sep(name@.take(1)) == 0);
            }
            return 0;
        }
        i = i - 1;
    }
}

/// The stem of a file name: what precedes the last separating dot, or the
/// whole name when no dot separates.
pub fn file_stem(name: &str) -> (r: String)
    ensures
        r@ == stem_of(name@),
{
    let n = name.unicode_len();
    let sep = find_last_sep(name);
    proof {
        lemma_last_sep_bounds(name@);
    }
    if sep >= 1 {
        name.substring_char(0, sep).to_owned()
    } else {
        proof {
            assert(name@.subrange(0, n as int) =~= name@);
        }
        name.substring_char(0, n).to_owned()
    }
}

/// The fixed, case-sensitive allow-list of image extensions. Deliberately
/// asymmetric: the upper-case variant of `gif` is absent.
pub open spec fn is_image_ext(e: Seq<char>) -> bool {
    ||| e == "jpg"@
    ||| e == "jpeg"@
    ||| e == "png"@
    ||| e == "gif"@
    ||| e == "PNG"@
    ||| e == "JPG"@
    ||| e == "JPEG"@
}

/// A file name counts as an image when its extension is on the allow-list.
pub open spec fn is_image_name(s: Seq<char>) -> bool {
    match extension_of(s) {
        Some(e) => is_image_ext(e),
        None => false,
    }
}

fn str_is(s: &String, lit: &str) -> (b: bool)
    ensures
        b == (s@ == lit@),
{
    s.eq(&lit.to_owned())
}

/// Decides whether `name` is an image file name by the fixed allow-list.
pub fn is_image_file(name: &str) -> (b: bool)
    ensures
        b == is_image_name(name@),
{
    let n = name.unicode_len();
    let sep = find_last_sep(name);
    if sep < 1 {
        return false;
    }
    proof {
        lemma_last_sep_bounds(name@);
    }
    let ext = name.substring_char(sep + 1, n).to_owned();
    str_is(&ext, "jpg") || str_is(&ext, "jpeg") || str_is(&ext, "png") || str_is(&ext, "gif")
        || str_is(&ext, "PNG") || str_is(&ext, "JPG") || str_is(&ext, "JPEG")
}

/// Holds when `s[i]` is the entry the selection policy picks: an image file
/// whose modification time no other image entry exceeds, standing last among
/// the entries that reach that maximum.
pub open spec fn selected_at(s: Seq<ScanEntry>, i: int) -> bool {
    &&& 0 <= i < s.len()
    &&& is_image_name(s[i].name@)
    &&& forall|j: int|
        0 <= j < s.len() && is_image_name(s[j].name@) ==> s[j].mtime <= s[i].mtime
    &&& forall|j: int|
        0 <= j < s.len() && is_image_name(s[j].name@) && s[j].mtime == s[i].mtime ==> j <= i
}

/// Picks the most recently modified image entry. Returns its index, or
/// nothing exactly when no entry is an image file. Ties in modification time
/// go to the entry that comes later in the scan.
pub fn select_newest(entries: &Vec<ScanEntry>) -> (r: Option<usize>)
    ensures
        r is None <==> (forall|j: int|
            0 <= j < entries@.len() ==> !is_image_name(entries@[j].name@)),
        match r {
            Some(i) => selected_at(entries@, i as int),
            None => true,
        },
{
    let mut best: Option<usize> = None;
    let n = entries.len();
    let mut k: usize = 0;
    while k < n
        invariant
            n == entries@.len(),
            0 <= k <= n,
            best is None <==> (forall|j: int|
                0 <= j < k ==> !is_image_name(entries@[j].name@)),
            match best {
                Some(i) => {
                    &&& 0 <= i < k
                    &&& is_image_name(entries@[i as int].name@)
                    &&& forall|j: int|
                        0 <= j < k && is_image_name(entries@[j].name@)
                            ==> entries@[j].mtime <= entries@[i as int].mtime
                    &&& forall|j: int|
                        0 <= j < k && is_image_name(entries@[j].name@)
                            && entries@[j].mtime == entries@[i as int].mtime ==> j <= i
                },
                None => true,
            },
        decreases n - k,
    {
        if is_image_file(entries[k].name.as_str()) {
            match best {
                None => {
                    best = Some(k);
                },
                Some(i) => {
                    if entries[k].mtime >= entries[i].mtime {
                        best = Some(k);
                    }
                },
            }
        }
        k = k + 1;
    }
    best
}

/// No two image entries share a modification time.
pub open spec fn distinct_image_mtimes(s: Seq<ScanEntry>) -> bool {
    forall|i: int, j: int|
        0 <= i < s.len() && 0 <= j < s.len() && i != j && is_image_name(s[i].name@)
            && is_image_name(s[j].name@) ==> s[i].mtime != s[j].mtime
}

/// Selection does not depend on the order in which the directory was walked:
/// two scans that deliver the same entries, in any order, with no two image
/// entries sharing a modification time, have the same entry selected.
pub proof fn lemma_selection_order_independent(
    s1: Seq<ScanEntry>,
    s2: Seq<ScanEntry>,
    i1: int,
    i2: int,
)
    requires
        s1.to_multiset() == s2.to_multiset(),
        distinct_image_mtimes(s2),
        selected_at(s1, i1),
        selected_at(s2, i2),
    ensures
        s1[i1].name@ == s2[i2].name@,
        s1[i1].mtime == s2[i2].mtime,
{
    broadcast use vstd::seq_lib::group_to_multiset_ensures;

    let e1 = s1[i1];
    let e2 = s2[i2];
    assert(s1.contains(e1));
    assert(s1.to_multiset().count(e1) > 0);
    assert(s2.contains(e1));
    let j = choose|j: int| 0 <= j < s2.len() && s2[j] == e1;
    assert(e1.mtime <= e2.mtime);
    assert(s2.contains(e2));
    assert(s2.to_multiset().count(e2) > 0);
    assert(s1.contains(e2));
    let j1 = choose|j: int| 0 <= j < s1.len() && s1[j] == e2;
    assert(e2.mtime <= e1.mtime);
    if j != i2 {
        assert(s2[j].mtime != s2[i2].mtime);
        assert(false);
    }
}

} // verus!
