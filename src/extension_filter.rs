//! Allow-list of file extensions, kept normalized, deduplicated and sorted.
use vstd::prelude::*;
use vstd::string::*;
use vstd::utf8::*;
use crate::order::{bytes_lt, compare_bytes, lemma_lt_irreflexive, lemma_lt_transitive};

verus! {

/// What `str::to_lowercase` makes of a string.
pub uninterp spec fn lower_of(s: Seq<char>) -> Seq<char>;

/// What `Path::extension` finds in a path: the part of its file name after
/// the final dot, if any.
pub uninterp spec fn extension_of(path: Seq<char>) -> Option<Seq<char>>;

/// Relies on `str::to_lowercase`: the lowercase form depends on the
/// characters alone.
#[verifier::external_body]
fn lowercase(s: &str) -> (r: String)
    ensures
        r@ == lower_of(s@),
{
    s.to_lowercase()
}

/// Relies on `Path::extension`: the extension of the path's file name.
#[verifier::external_body]
fn path_extension(path: &str) -> (r: Option<String>)
    ensures
        r matches Some(e) ==> extension_of(path@) == Some(e@),
        r is None ==> extension_of(path@) is None,
{
    std::path::Path::new(path).extension().map(|e| e.to_string_lossy().into_owned())
}

/// An extension with at most one leading dot removed.
pub open spec fn strip_dot(e: Seq<char>) -> Seq<char> {
    if e.len() > 0 && e[0] == '.' {
        e.drop_first()
    } else {
        e
    }
}

/// The normalized form of an extension as the user wrote it.
pub open spec fn normalize(e: Seq<char>) -> Seq<char> {
    lower_of(strip_dot(e))
}

/// The sort key of a string: its UTF-8 bytes.
pub open spec fn key(s: Seq<char>) -> Seq<u8> {
    encode_utf8(s)
}

/// The character sequences held by a list of strings.
pub open spec fn names(v: Seq<String>) -> Seq<Seq<char>> {
    v.map_values(|s: String| s@)
}

/// Strictly increasing by key, hence free of duplicates.
pub open spec fn sorted_strict(v: Seq<String>) -> bool {
    forall|i: int, j: int| 0 <= i < j < v.len() ==> bytes_lt(key(v[i]@), key(v[j]@))
}

/// Whether `path` passes an allow-list whose normalized members are `exts`.
pub open spec fn extension_allowed(exts: Set<Seq<char>>, path: Seq<char>) -> bool {
    exts.is_empty() || match extension_of(path) {
        Some(e) => exts.contains(lower_of(e)),
        None => false,
    }
}

pub struct ExtensionFilter {
    exts: Vec<String>,
}

/// Result of a search in a strictly sorted list.
struct Found {
    hit: bool,
    pos: usize,
}

/// Binary search of `k` in the strictly sorted `v`.
fn search(v: &Vec<String>, k: &[u8]) -> (r: Found)
    requires
        sorted_strict(v@),
    ensures
        r.pos <= v@.len(),
        forall|i: int| 0 <= i < r.pos ==> bytes_lt(key(v@[i]@), k@),
        r.hit ==> r.pos < v@.len() && key(v@[r.pos as int]@) == k@,
        !r.hit ==> forall|i: int| r.pos <= i < v@.len() ==> bytes_lt(k@, key(v@[i]@)),
{
    let mut lo: usize = 0;
    let mut hi: usize = v.len();
    while lo < hi
        invariant
            sorted_strict(v@),
            0 <= lo <= hi <= v@.len(),
            forall|i: int| 0 <= i < lo ==> bytes_lt(key(v@[i]@), k@),
            forall|i: int| hi <= i < v@.len() ==> bytes_lt(k@, key(v@[i]@)),
        decreases hi - lo,
    {
        let mid = lo + (hi - lo) / 2;
        let m = v[mid].as_str().as_bytes();
        let c = compare_bytes(m, k);
        if c == 0 {
            assert(key(v@[mid as int]@) == k@);
            assert forall|i: int| 0 <= i < mid implies bytes_lt(key(v@[i]@), k@) by {
                assert(bytes_lt(key(v@[i]@), key(v@[mid as int]@)));
            }
            return Found { hit: true, pos: mid };
        } else if c < 0 {
            assert forall|i: int| 0 <= i <= mid implies bytes_lt(key(v@[i]@), k@) by {
                if i < mid {
                    lemma_lt_transitive(key(v@[i]@), key(v@[mid as int]@), k@);
                }
            }
            lo = mid + 1;
        } else {
            assert forall|i: int| mid <= i < v@.len() implies bytes_lt(k@, key(v@[i]@)) by {
                if i > mid {
                    lemma_lt_transitive(k@, key(v@[mid as int]@), key(v@[i]@));
                }
            }
            hi = mid;
        }
    }
    Found { hit: false, pos: lo }
}

proof fn lemma_key_injective(a: Seq<char>, b: Seq<char>)
    requires
        key(a) == key(b),
    ensures
        a == b,
{
    encode_utf8_decode_utf8(a);
    encode_utf8_decode_utf8(b);
}

impl ExtensionFilter {
    /// The normalized extensions of the filter.
    pub closed spec fn view(&self) -> Set<Seq<char>> {
        names(self.exts@).to_set()
    }

    pub closed spec fn wf(&self) -> bool {
        sorted_strict(self.exts@)
    }

    /// Builds the filter: each extension loses one leading dot and is
    /// lowercased; duplicates collapse.
    pub fn new(extensions: &[String]) -> (r: Self)
        ensures
            r.wf(),
            forall|e: Seq<char>|
                r@.contains(e) <==> exists|i: int|
                    0 <= i < extensions@.len() && e == normalize(#[trigger] extensions@[i]@),
    {
        let mut exts: Vec<String> = Vec::new();
        let mut n: usize = 0;
        while n < extensions.len()
            invariant
                0 <= n <= extensions@.len(),
                sorted_strict(exts@),
                forall|e: Seq<char>|
                    names(exts@).to_set().contains(e) <==> exists|i: int|
                        0 <= i < n && e == normalize(#[trigger] extensions@[i]@),
            decreases extensions@.len() - n,
        {
            let raw: &str = extensions[n].as_str();
            let len = raw.unicode_len();
            let stripped: &str = if len > 0 && raw.get_char(0) == '.' {
                raw.substring_char(1, len)
            } else {
                raw
            };
            assert(stripped@ == strip_dot(extensions@[n as int]@));
            let low = lowercase(stripped);
            let found = search(&exts, low.as_str().as_bytes());
            let ghost before = exts@;
            if !found.hit {
                exts.insert(found.pos, low);
                assert(sorted_strict(exts@)) by {
                    assert forall|i: int, j: int| 0 <= i < j < exts@.len() implies bytes_lt(
                        key(exts@[i]@),
                        key(exts@[j]@),
                    ) by {
                        if j < found.pos {
                        } else if j == found.pos {
                        } else if i < found.pos {
                            assert(exts@[j] == before[j - 1]);
                        } else if i == found.pos {
                            assert(exts@[j] == before[j - 1]);
                        } else {
                            assert(exts@[j] == before[j - 1]);
                            assert(exts@[i] == before[i - 1]);
                        }
                    }
                }
            } else {
                proof {
                    lemma_key_injective(before[found.pos as int]@, low@);
                }
            }
            assert forall|e: Seq<char>|
                names(exts@).to_set().contains(e) <==> exists|i: int|
                    0 <= i < n + 1 && e == normalize(#[trigger] extensions@[i]@) by {
                let old_set = names(before).to_set();
                let new_set = names(exts@).to_set();
                if new_set.contains(e) {
                    let k = choose|k: int|
                        0 <= k < exts@.len() && #[trigger] names(exts@)[k] == e;
                    if !found.hit && k != found.pos {
                        let k2 = if k < found.pos { k } else { k - 1 };
                        assert(names(before)[k2] == e);
                        assert(old_set.contains(e));
                    } else if found.hit {
                        assert(names(before)[k] == e);
                        assert(old_set.contains(e));
                    }
                }
                if exists|i: int| 0 <= i < n + 1 && e == normalize(#[trigger] extensions@[i]@) {
                    if e == normalize(extensions@[n as int]@) {
                        let p = found.pos as int;
                        assert(names(exts@)[p] == e);
                    } else {
                        let i = choose|i: int| 0 <= i < n + 1 && e == normalize(#[trigger] extensions@[i]@);
                        assert(i < n);
                        assert(old_set.contains(e));
                        let k = choose|k: int|
                            0 <= k < before.len() && #[trigger] names(before)[k] == e;
                        if !found.hit {
                            let k2 = if k < found.pos { k } else { k + 1 };
                            assert(names(exts@)[k2] == e);
                        } else {
                            assert(names(exts@)[k] == e);
                        }
                    }
                }
            }
            n = n + 1;
        }
        ExtensionFilter { exts }
    }

    /// True when the filter is empty, or the path's extension, lowercased,
    /// is one of the filter's extensions.
    pub fn is_match(&self, path: &str) -> (r: bool)
        requires
            self.wf(),
        ensures
            r == extension_allowed(self@, path@),
    {
        if self.exts.len() == 0 {
            assert(self@ =~= Set::empty());
            return true;
        }
        assert(self@.contains(self.exts@[0]@)) by {
            assert(names(self.exts@)[0] == self.exts@[0]@);
        }
        match path_extension(path) {
            None => false,
            Some(ext) => {
                let low = lowercase(ext.as_str());
                let found = search(&self.exts, low.as_str().as_bytes());
                if found.hit {
                    proof {
                        lemma_key_injective(self.exts@[found.pos as int]@, low@);
                        assert(names(self.exts@)[found.pos as int] == low@);
                    }
                    true
                } else {
                    assert(!self@.contains(low@)) by {
                        if self@.contains(low@) {
                            let k = choose|k: int|
                                0 <= k < self.exts@.len() && #[trigger] names(self.exts@)[k] == low@;
                            lemma_lt_irreflexive(key(low@));
                        }
                    }
                    false
                }
            }
        }
    }
}

} // verus!
