use vstd::prelude::*;

verus! {

/// What one queue family of a physical device can do, as far as the choice
/// of queues is concerned.
#[derive(Debug, Clone, Copy, PartialEq, Eq, Structural)]
pub struct QueueFamilySupport {
    pub supports_compute: bool,
    pub supports_present: bool,
}

/// Indices of the queue families chosen for rendering and for presenting;
/// `-1` while none was found.
#[derive(Debug, Clone, Copy, PartialEq, Eq, Structural)]
pub struct QueueFamilyIndices {
    pub graphics_family: i32,
    pub present_family: i32,
}

/// Index of the last family before `end` that supports compute, or -1.
pub open spec fn last_compute_before(families: Seq<QueueFamilySupport>, end: int) -> int
    decreases end,
{
    if end <= 0 {
        -1
    } else if families[end - 1].supports_compute {
        end - 1
    } else {
        last_compute_before(families, end - 1)
    }
}

/// Index of the last family before `end` that supports presenting, or -1.
pub open spec fn last_present_before(families: Seq<QueueFamilySupport>, end: int) -> int
    decreases end,
{
    if end <= 0 {
        -1
    } else if families[end - 1].supports_present {
        end - 1
    } else {
        last_present_before(families, end - 1)
    }
}

/// Among the first `end` families there is one for each purpose.
pub open spec fn complete_within(families: Seq<QueueFamilySupport>, end: int) -> bool {
    last_compute_before(families, end) >= 0 && last_present_before(families, end) >= 0
}

/// Number of families examined by the search: it stops right after the
/// first family with which both purposes are covered, or at the end.
pub open spec fn search_end(families: Seq<QueueFamilySupport>, start: nat) -> nat
    decreases families.len() - start,
{
    if start >= families.len() {
        families.len()
    } else if complete_within(families, (start + 1) as int) {
        start + 1
    } else {
        search_end(families, start + 1)
    }
}

/// The indices that the search over `families` settles on.
pub open spec fn chosen_families(families: Seq<QueueFamilySupport>) -> QueueFamilyIndices {
    let end: int = search_end(families, 0) as int;
    QueueFamilyIndices {
        graphics_family: last_compute_before(families, end) as i32,
        present_family: last_present_before(families, end) as i32,
    }
}

impl QueueFamilyIndices {
    pub open spec fn spec_is_complete(&self) -> bool {
        self.graphics_family >= 0 && self.present_family >= 0
    }

    /// Nothing chosen yet.
    pub fn new() -> (r: Self)
        ensures
            r.graphics_family == -1,
            r.present_family == -1,
    {
        Self { graphics_family: -1, present_family: -1 }
    }

    /// Both a rendering and a presenting family were chosen.
    pub fn is_complete(&self) -> (r: bool)
        ensures
            r == self.spec_is_complete(),
    {
        self.graphics_family >= 0 && self.present_family >= 0
    }
}

proof fn lemma_last_before_bounds(families: Seq<QueueFamilySupport>, end: int)
    requires
        0 <= end <= families.len(),
    ensures
        -1 <= last_compute_before(families, end) < end,
        -1 <= last_present_before(families, end) < end,
        last_compute_before(families, end) >= 0 ==> families[last_compute_before(
            families,
            end,
        )].supports_compute,
        last_present_before(families, end) >= 0 ==> families[last_present_before(
            families,
            end,
        )].supports_present,
    decreases end,
{
    if end > 0 {
        lemma_last_before_bounds(families, end - 1);
    }
}

proof fn lemma_search_end_skips(families: Seq<QueueFamilySupport>, i: nat)
    requires
        i <= families.len(),
        forall|e: int| 1 <= e <= i ==> !complete_within(families, e),
    ensures
        search_end(families, 0) == search_end(families, i),
    decreases i,
{
    if i > 0 {
        lemma_search_end_skips(families, (i - 1) as nat);
        assert(!complete_within(families, i as int));
    }
}

proof fn lemma_last_before_agree(s1: Seq<QueueFamilySupport>, s2: Seq<QueueFamilySupport>, end: int)
    requires
        0 <= end <= s1.len(),
        end <= s2.len(),
        forall|i: int| 0 <= i < end ==> s1[i] == s2[i],
    ensures
        last_compute_before(s1, end) == last_compute_before(s2, end),
        last_present_before(s1, end) == last_present_before(s2, end),
    decreases end,
{
    if end > 0 {
        lemma_last_before_agree(s1, s2, end - 1);
        assert(s1[end - 1] == s2[end - 1]);
    }
}

proof fn lemma_search_end_agree(
    s1: Seq<QueueFamilySupport>,
    s2: Seq<QueueFamilySupport>,
    start: nat,
    e: nat,
)
    requires
        s1.len() == s2.len(),
        start <= e <= s1.len(),
        search_end(s1, start) == e,
        forall|i: int| 0 <= i < e ==> s1[i] == s2[i],
    ensures
        search_end(s2, start) == e,
    decreases s1.len() - start,
{
    if start < s1.len() {
        if start == e {
            if !complete_within(s1, (start + 1) as int) {
                lemma_search_end_stops(s1, start + 1);
            }
        } else {
            lemma_last_before_agree(s1, s2, (start + 1) as int);
            if !complete_within(s1, (start + 1) as int) {
                lemma_search_end_agree(s1, s2, start + 1, e);
            }
        }
    }
}

/// Two device descriptions that agree on the families the search examines
/// lead to the same choice.
proof fn lemma_chosen_families_prefix(s1: Seq<QueueFamilySupport>, s2: Seq<QueueFamilySupport>)
    requires
        s1.len() == s2.len(),
        forall|i: int| 0 <= i < search_end(s1, 0) ==> s1[i] == s2[i],
    ensures
        search_end(s2, 0) == search_end(s1, 0),
        chosen_families(s2) == chosen_families(s1),
{
    lemma_search_end_stops(s1, 0);
    let e = search_end(s1, 0);
    lemma_search_end_agree(s1, s2, 0, e);
    lemma_last_before_agree(s1, s2, e as int);
}

/// Picks the queue families as the device set-up does: families
/// `0..count` are examined in order, asking `query` about each, the last
/// one seen that supports compute becomes the graphics family and the last
/// one seen that supports presenting becomes the present family, and the
/// search stops as soon as both are set (later families are not asked
/// about).
pub fn find_queue_families_by(count: usize, query: impl Fn(usize) -> QueueFamilySupport) -> (r:
    QueueFamilyIndices)
    requires
        count <= i32::MAX,
        forall|i: usize| i < count ==> query.requires((i,)),
    ensures
        exists|s: Seq<QueueFamilySupport>|
            {
                &&& s.len() == count
                &&& r == chosen_families(s)
                &&& forall|k: int|
                    0 <= k < search_end(s, 0) ==> query.ensures((k as usize,), #[trigger] s[k])
            },
{
    let mut indices = QueueFamilyIndices::new();
    let ghost mut seen: Seq<QueueFamilySupport> = Seq::empty();
    let mut i: usize = 0;
    while i < count
        invariant_except_break
            i <= count,
            seen.len() == i,
            forall|e: int| 1 <= e <= seen.len() ==> !complete_within(seen, e),
        invariant
            count <= i32::MAX,
            forall|j: usize| j < count ==> query.requires((j,)),
            seen.len() <= count,
            forall|k: int| 0 <= k < seen.len() ==> query.ensures((k as usize,), #[trigger] seen[k]),
            indices.graphics_family == last_compute_before(seen, seen.len() as int),
            indices.present_family == last_present_before(seen, seen.len() as int),
            forall|e: int| 1 <= e < seen.len() ==> !complete_within(seen, e),
        ensures
            seen.len() == count && !complete_within(seen, seen.len() as int) || seen.len() >= 1
                && complete_within(seen, seen.len() as int),
        decreases count - i,
    {
        proof {
            lemma_last_before_bounds(seen, i as int);
        }
        let family = query(i);
        proof {
            let old_seen = seen;
            seen = seen.push(family);
            assert forall|e: int| 0 <= e <= i implies last_compute_before(seen, e)
                == last_compute_before(old_seen, e) && last_present_before(seen, e)
                == last_present_before(old_seen, e) by {
                lemma_last_before_agree(old_seen, seen, e);
            }
            assert forall|e: int| 1 <= e <= i implies !complete_within(seen, e) by {
                lemma_last_before_agree(old_seen, seen, e);
                assert(!complete_within(old_seen, e));
            }
        }
        assert(seen[i as int] == family);
        if family.supports_compute {
            indices.graphics_family = i as i32;
        }
        if family.supports_present {
            indices.present_family = i as i32;
        }
        assert(indices.graphics_family == last_compute_before(seen, i + 1));
        assert(indices.present_family == last_present_before(seen, i + 1));
        if indices.is_complete() {
            assert(complete_within(seen, i + 1));
            break;
        }
        i = i + 1;
    }
    proof {
        let n = seen.len();
        let pad = Seq::new((count - n) as nat, |k: int| QueueFamilySupport {
            supports_compute: false,
            supports_present: false,
        });
        let s = seen + pad;
        assert forall|e: int| 0 <= e <= n implies last_compute_before(s, e) == last_compute_before(
            seen,
            e,
        ) && last_present_before(s, e) == last_present_before(seen, e) by {
            lemma_last_before_agree(seen, s, e);
        }
        let skipped: int = if complete_within(seen, n as int) {
            n - 1
        } else {
            n as int
        };
        assert forall|e: int| 1 <= e <= skipped implies !complete_within(s, e) by {
            lemma_last_before_agree(seen, s, e);
            assert(!complete_within(seen, e));
        }
        lemma_search_end_skips(s, skipped as nat);
        if complete_within(seen, n as int) {
            assert(search_end(s, (n - 1) as nat) == n);
        }
        assert(search_end(s, 0) == n);
        assert(forall|k: int| 0 <= k < n ==> s[k] == seen[k]);
        assert(s.len() == count);
        assert(indices == chosen_families(s));
    }
    indices
}

/// Picks the queue families of a device described by `families`, as
/// [`find_queue_families_by`] does.
pub fn find_queue_families(families: &Vec<QueueFamilySupport>) -> (r: QueueFamilyIndices)
    requires
        families.len() <= i32::MAX,
    ensures
        r == chosen_families(families@),
{
    let query = |i: usize| -> (f: QueueFamilySupport)
        requires
            i < families.len(),
        ensures
            f == families@[i as int],
        {
            families[i]
        };
    let r = find_queue_families_by(families.len(), query);
    proof {
        let s = choose|s: Seq<QueueFamilySupport>|
            {
                &&& s.len() == families.len()
                &&& r == chosen_families(s)
                &&& forall|k: int|
                    0 <= k < search_end(s, 0) ==> call_ensures(query, (k as usize,), #[trigger] s[k])
            };
        lemma_search_end_stops(s, 0);
        assert forall|k: int| 0 <= k < search_end(s, 0) implies s[k] == families@[k] by {
            assert(call_ensures(query, (k as usize,), s[k]));
            assert(k as usize == k);
        }
        lemma_chosen_families_prefix(s, families@);
    }
    r
}

/// The distinct families among the chosen ones, graphics family first: one
/// queue is created on each of them.
pub fn unique_queue_families(indices: &QueueFamilyIndices) -> (r: Vec<i32>)
    ensures
        indices.graphics_family == indices.present_family ==> r@ == seq![indices.graphics_family],
        indices.graphics_family != indices.present_family ==> r@ == seq![
            indices.graphics_family,
            indices.present_family,
        ],
{
    let mut r: Vec<i32> = Vec::new();
    r.push(indices.graphics_family);
    if indices.present_family != indices.graphics_family {
        r.push(indices.present_family);
    }
    r
}

/// The search ends with both families chosen exactly when the device has a
/// family that supports compute and a family that supports presenting; a
/// chosen index always names a family with the required support.
pub proof fn lemma_chosen_families_sound(families: Seq<QueueFamilySupport>)
    requires
        families.len() <= i32::MAX,
    ensures
        chosen_families(families).spec_is_complete() <==> (exists|i: int|
            0 <= i < families.len() && #[trigger] families[i].supports_compute) && (exists|j: int|
            0 <= j < families.len() && #[trigger] families[j].supports_present),
        chosen_families(families).graphics_family >= 0 ==> families[chosen_families(
            families,
        ).graphics_family as int].supports_compute,
        chosen_families(families).present_family >= 0 ==> families[chosen_families(
            families,
        ).present_family as int].supports_present,
{
    let n: int = families.len() as int;
    let e: int = search_end(families, 0) as int;
    lemma_search_end_stops(families, 0);
    lemma_last_before_bounds(families, e);
    lemma_last_before_maximal(families, n);
    if (exists|i: int| 0 <= i < families.len() && #[trigger] families[i].supports_compute) && (
    exists|j: int| 0 <= j < families.len() && #[trigger] families[j].supports_present) {
        let i: int = choose|i: int| 0 <= i < families.len() && #[trigger] families[i].supports_compute;
        let j: int = choose|j: int| 0 <= j < families.len() && #[trigger] families[j].supports_present;
        assert(last_compute_before(families, n) >= i);
        assert(last_present_before(families, n) >= j);
        assert(complete_within(families, n));
    }
    if complete_within(families, e) {
        assert(families[last_compute_before(families, e)].supports_compute);
        assert(families[last_present_before(families, e)].supports_present);
    }
}

/// The search settles on the first families with which both purposes are
/// covered.  When both are chosen, no earlier prefix of the device's families
/// has both a compute and a presenting family than the one that ends at the
/// larger of the two chosen indices, and within that prefix each chosen
/// index is the last family of its kind.  When they are not both chosen, the
/// whole device was examined and each chosen index is the last family of its
/// kind, or -1 when there is none.
pub proof fn lemma_chosen_families_first_cover(families: Seq<QueueFamilySupport>)
    requires
        families.len() <= i32::MAX,
    ensures
        ({
            let r = chosen_families(families);
            let g: int = r.graphics_family as int;
            let p: int = r.present_family as int;
            let e: int = if g < p {
                p
            } else {
                g
            };
            r.spec_is_complete() ==> {
                &&& e < families.len()
                &&& forall|i: int|
                    0 <= i <= e && #[trigger] families[i].supports_compute ==> i <= g
                &&& forall|i: int|
                    0 <= i <= e && #[trigger] families[i].supports_present ==> i <= p
                &&& forall|i: int, j: int|
                    0 <= i < families.len() && 0 <= j < families.len()
                        && #[trigger] families[i].supports_compute
                        && #[trigger] families[j].supports_present ==> e <= (if i < j {
                        j
                    } else {
                        i
                    })
            }
        }),
        ({
            let r = chosen_families(families);
            !r.spec_is_complete() ==> {
                &&& forall|i: int|
                    0 <= i < families.len() && #[trigger] families[i].supports_compute ==> i
                        <= r.graphics_family
                &&& forall|i: int|
                    0 <= i < families.len() && #[trigger] families[i].supports_present ==> i
                        <= r.present_family
            }
        }),
{
    let n: int = families.len() as int;
    let end: int = search_end(families, 0) as int;
    lemma_search_end_stops(families, 0);
    lemma_search_end_first(families, 0);
    lemma_last_before_bounds(families, end);
    lemma_last_before_maximal(families, end);
    let g: int = last_compute_before(families, end);
    let p: int = last_present_before(families, end);
    let r = chosen_families(families);
    assert(g as i32 == g);
    assert(p as i32 == p);
    assert(r.graphics_family as int == g);
    assert(r.present_family as int == p);
    if complete_within(families, end) {
        let e: int = if g < p {
            p
        } else {
            g
        };
        assert(end >= 1);
        if !families[end - 1].supports_compute && !families[end - 1].supports_present {
            assert(g == last_compute_before(families, end - 1));
            assert(p == last_present_before(families, end - 1));
            if end - 1 == 0 {
                assert(false);
            } else {
                assert(!complete_within(families, end - 1));
                assert(false);
            }
        }
        assert(e == end - 1);
        assert forall|i: int, j: int|
            0 <= i < families.len() && 0 <= j < families.len()
                && #[trigger] families[i].supports_compute
                && #[trigger] families[j].supports_present implies e <= (if i < j {
            j
        } else {
            i
        }) by {
            let k: int = if i < j {
                j + 1
            } else {
                i + 1
            };
            if k <= e {
                lemma_last_before_maximal(families, k);
                assert(complete_within(families, k));
                assert(!complete_within(families, k));
            }
        }
    } else {
        assert(end == n);
    }
}

/// No family count before where the search stops already covers both
/// purposes.
proof fn lemma_search_end_first(families: Seq<QueueFamilySupport>, start: nat)
    requires
        start <= families.len(),
    ensures
        forall|e: int|
            start < e < search_end(families, start) ==> !#[trigger] complete_within(families, e),
    decreases families.len() - start,
{
    if start < families.len() && !complete_within(families, (start + 1) as int) {
        lemma_search_end_first(families, start + 1);
    }
}

proof fn lemma_last_before_maximal(families: Seq<QueueFamilySupport>, end: int)
    requires
        0 <= end <= families.len(),
    ensures
        forall|i: int|
            0 <= i < end && #[trigger] families[i].supports_compute ==> last_compute_before(
                families,
                end,
            ) >= i,
        forall|i: int|
            0 <= i < end && #[trigger] families[i].supports_present ==> last_present_before(
                families,
                end,
            ) >= i,
    decreases end,
{
    if end > 0 {
        lemma_last_before_maximal(families, end - 1);
    }
}

proof fn lemma_search_end_stops(families: Seq<QueueFamilySupport>, start: nat)
    requires
        start <= families.len(),
    ensures
        start <= search_end(families, start) <= families.len(),
        complete_within(families, search_end(families, start) as int) || (search_end(
            families,
            start,
        ) == families.len() && forall|e: int|
            start < e <= families.len() ==> !#[trigger] complete_within(families, e)),
    decreases families.len() - start,
{
    if start < families.len() && !complete_within(families, (start + 1) as int) {
        lemma_search_end_stops(families, start + 1);
    }
}

} // verus!
