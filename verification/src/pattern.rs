//! Byte signatures with wildcards, and what it means for one to match.

use vstd::prelude::*;

verus! {

/// Whether `pat` matches `hay` at offset `k`: the pattern lies wholly inside
/// `hay` there, and every cell that names a byte finds that byte. A cell
/// without a byte matches anything.
pub open spec fn matches_at(hay: Seq<u8>, pat: Seq<Option<u8>>, k: int) -> bool {
    &&& 0 <= k
    &&& k + pat.len() <= hay.len()
    &&& forall|i: int|
        0 <= i < pat.len() ==> (#[trigger] pat[i] matches Some(b) ==> hay[k + i] == b)
}

/// The first offset at or after `start` where `pat` matches `hay`.
pub open spec fn first_match_from(hay: Seq<u8>, pat: Seq<Option<u8>>, start: int) -> Option<int>
    decreases hay.len() - start,
{
    if start < 0 || start + pat.len() > hay.len() {
        None
    } else if matches_at(hay, pat, start) {
        Some(start)
    } else {
        first_match_from(hay, pat, start + 1)
    }
}

/// The first offset where `pat` matches `hay`, if there is one.
pub open spec fn first_match(hay: Seq<u8>, pat: Seq<Option<u8>>) -> Option<int> {
    first_match_from(hay, pat, 0)
}

/// What `first_match_from` returns is a match at or after `start` with no
/// match between `start` and it; and it returns nothing only where nothing
/// from `start` on matches.
pub proof fn lemma_first_match_from(hay: Seq<u8>, pat: Seq<Option<u8>>, start: int)
    requires
        0 <= start,
    ensures
        match first_match_from(hay, pat, start) {
            Some(k) => start <= k && matches_at(hay, pat, k) && forall|j: int|
                start <= j < k ==> !matches_at(hay, pat, j),
            None => forall|j: int| start <= j ==> !matches_at(hay, pat, j),
        },
    decreases hay.len() - start,
{
    if start + pat.len() > hay.len() {
    } else if matches_at(hay, pat, start) {
    } else {
        lemma_first_match_from(hay, pat, start + 1);
    }
}

/// Where the pattern matches at offset `k` and at no earlier offset, the
/// first match is `k`.
pub proof fn lemma_first_match_is_earliest(hay: Seq<u8>, pat: Seq<Option<u8>>, k: int)
    requires
        matches_at(hay, pat, k),
        forall|j: int| 0 <= j < k ==> !matches_at(hay, pat, j),
    ensures
        first_match(hay, pat) == Some(k),
{
    lemma_first_match_from(hay, pat, 0);
}

/// Where the pattern matches at no offset, there is no first match; and
/// whatever the first match is, the pattern lies inside `hay` there.
pub proof fn lemma_first_match_none(hay: Seq<u8>, pat: Seq<Option<u8>>)
    ensures
        (forall|k: int| !matches_at(hay, pat, k)) <==> first_match(hay, pat) is None,
        first_match(hay, pat) matches Some(k) ==> 0 <= k && k + pat.len() <= hay.len()
            && matches_at(hay, pat, k),
{
    lemma_first_match_from(hay, pat, 0);
}

/// A byte signature: a non-empty sequence of cells, each an exact byte or
/// a wildcard.
pub struct Pattern {
    cells: Vec<Option<u8>>,
}

impl View for Pattern {
    type V = Seq<Option<u8>>;

    closed spec fn view(&self) -> Seq<Option<u8>> {
        self.cells@
    }
}

/// The cells that a byte string and a mask of equal length describe: cell
/// `i` is `bytes[i]` where `mask[i]` holds, and a wildcard where it does not.
pub open spec fn masked(bytes: Seq<u8>, mask: Seq<bool>) -> Seq<Option<u8>> {
    Seq::new(
        bytes.len(),
        |i: int|
            if mask[i] {
                Some(bytes[i])
            } else {
                None
            },
    )
}

impl Pattern {
    /// A pattern is never empty.
    #[verifier::type_invariant]
    pub closed spec fn wf(&self) -> bool {
        self.cells@.len() > 0
    }

    /// The pattern with the given cells; none for an empty list.
    pub fn from_cells(cells: Vec<Option<u8>>) -> (r: Option<Pattern>)
        ensures
            r is Some <==> cells@.len() > 0,
            r matches Some(p) ==> p@ == cells@ && p.wf(),
    {
        if cells.len() == 0 {
            None
        } else {
            Some(Pattern { cells })
        }
    }

    /// The pattern that a byte string and its mask describe. There is none
    /// where the two differ in length or are empty.
    pub fn new(bytes: &[u8], mask: &[bool]) -> (r: Option<Pattern>)
        ensures
            r is Some <==> bytes@.len() == mask@.len() && bytes@.len() > 0,
            r matches Some(p) ==> p@ == masked(bytes@, mask@) && p.wf(),
    {
        if bytes.len() != mask.len() || bytes.len() == 0 {
            return None;
        }
        let mut cells: Vec<Option<u8>> = Vec::new();
        let mut i: usize = 0;
        while i < bytes.len()
            invariant
                i <= bytes@.len(),
                bytes@.len() == mask@.len(),
                cells@ == masked(bytes@, mask@).take(i as int),
            decreases bytes@.len() - i,
        {
            if mask[i] {
                cells.push(Some(bytes[i]));
            } else {
                cells.push(None);
            }
            i += 1;
        }
        Some(Pattern { cells })
    }

    /// The pattern without wildcards that matches exactly `bytes`.
    pub fn exact(bytes: &[u8]) -> (r: Option<Pattern>)
        ensures
            r is Some <==> bytes@.len() > 0,
            r matches Some(p) ==> p@ == bytes@.map_values(|b: u8| Some(b)) && p.wf(),
    {
        if bytes.len() == 0 {
            return None;
        }
        let mut cells: Vec<Option<u8>> = Vec::new();
        let mut i: usize = 0;
        while i < bytes.len()
            invariant
                i <= bytes@.len(),
                cells@ == bytes@.map_values(|b: u8| Some(b)).take(i as int),
            decreases bytes@.len() - i,
        {
            cells.push(Some(bytes[i]));
            i += 1;
        }
        Some(Pattern { cells })
    }

    pub fn len(&self) -> (n: usize)
        ensures
            n == self@.len(),
            n > 0,
    {
        proof {
            use_type_invariant(self);
        }
        self.cells.len()
    }

    /// The cell at `index`; none beyond the end.
    pub fn cell(&self, index: usize) -> (r: Option<Option<u8>>)
        ensures
            r == if index < self@.len() {
                Some(self@[index as int])
            } else {
                None
            },
    {
        if index < self.cells.len() {
            Some(self.cells[index])
        } else {
            None
        }
    }
}

} // verus!
