use vstd::prelude::*;

verus! {

/// How many disjoint runs of data an [`Assembler`] keeps apart.
pub const ASSEMBLER_MAX_SEGMENT_COUNT: usize = 4;

/// Returned when a range would have to be kept as one more run of data than there is room for.
#[derive(Debug, Clone, Copy, PartialEq, Eq, Structural)]
pub struct TooManyHolesError;

/// A hole, followed by data.
#[derive(Debug, Clone, Copy, PartialEq, Eq, Structural)]
struct Contig {
    hole_size: usize,
    data_size: usize,
}

impl Contig {
    spec fn total(self) -> int {
        self.hole_size + self.data_size
    }

    fn total_size(&self) -> (r: usize)
        requires
            self.total() <= usize::MAX,
        ensures
            r == self.total(),
    {
        self.hole_size + self.data_size
    }
}

/// The octets `lo .. hi`.
pub open spec fn span(lo: int, hi: int) -> Set<int> {
    Set::new(|k: int| lo <= k < hi)
}

/// The first members of the maximal runs of consecutive numbers in `s`.
pub open spec fn run_starts(s: Set<int>) -> Set<int> {
    Set::new(|k: int| s.contains(k) && !s.contains(k - 1))
}

/// How many maximal runs of consecutive numbers `s` falls into.
pub open spec fn run_count(s: Set<int>) -> nat {
    run_starts(s).len()
}

/// Whether some member of `s` overlaps `lo .. hi` or borders on it.
pub open spec fn touches(s: Set<int>, lo: int, hi: int) -> bool {
    exists|k: int| lo - 1 <= k <= hi && s.contains(k)
}

/// Whether the run of consecutive members of `s` that starts at 0 has exactly `n` members.
pub open spec fn is_front_run(s: Set<int>, n: int) -> bool {
    &&& 0 <= n
    &&& forall|k: int| 0 <= k < n ==> s.contains(k)
    &&& !s.contains(n)
}

/// The length of the run of consecutive members of `s` that starts at 0.
pub open spec fn front_run(s: Set<int>) -> int {
    choose|n: int| is_front_run(s, n)
}

/// What is left of `s` when the origin moves forward by `n`.
pub open spec fn advanced(s: Set<int>, n: int) -> Set<int> {
    Set::new(|k: int| k >= 0 && s.contains(k + n))
}

/// A front run has one length only.
pub proof fn front_run_is_unique(s: Set<int>, n: int)
    requires
        is_front_run(s, n),
    ensures
        front_run(s) == n,
{
    let m = front_run(s);
    assert(is_front_run(s, m));
    if m < n {
        assert(s.contains(m));
    }
    if n < m {
        assert(s.contains(n));
    }
}

/// The number of octets that the contigs take up.
spec fn extent(s: Seq<Contig>) -> int
    decreases s.len(),
{
    if s.len() == 0 {
        0
    } else {
        s[0].total() + extent(s.drop_first())
    }
}

/// Whether octet `k` is data, when the first contig starts at `base`.
spec fn covers(s: Seq<Contig>, base: int, k: int) -> bool
    decreases s.len(),
{
    s.len() > 0 && (base + s[0].hole_size <= k < base + s[0].total() || covers(
        s.drop_first(),
        base + s[0].total(),
        k,
    ))
}

/// The octets that are data, when the first contig starts at 0.
spec fn members(s: Seq<Contig>) -> Set<int> {
    Set::new(|k: int| covers(s, 0, k))
}

/// Contigs in normal form: every one holds data, and a hole parts each from the one before it.
spec fn normal(s: Seq<Contig>) -> bool {
    &&& forall|i: int| 0 <= i < s.len() ==> (#[trigger] s[i]).data_size > 0
    &&& forall|i: int| 0 < i < s.len() ==> (#[trigger] s[i]).hole_size > 0
}

proof fn lemma_extent_concat(a: Seq<Contig>, b: Seq<Contig>)
    ensures
        extent(a + b) == extent(a) + extent(b),
        extent(a) >= 0,
    decreases a.len(),
{
    if a.len() == 0 {
        assert(a + b =~= b);
    } else {
        lemma_extent_concat(a.drop_first(), b);
        assert((a + b).drop_first() =~= a.drop_first() + b);
    }
}

proof fn lemma_covers_concat(a: Seq<Contig>, b: Seq<Contig>, base: int, k: int)
    ensures
        covers(a + b, base, k) == (covers(a, base, k) || covers(b, base + extent(a), k)),
    decreases a.len(),
{
    if a.len() == 0 {
        assert(a + b =~= b);
    } else {
        lemma_covers_concat(a.drop_first(), b, base + a[0].total(), k);
        assert((a + b).drop_first() =~= a.drop_first() + b);
    }
}

proof fn lemma_covers_within(s: Seq<Contig>, base: int, k: int)
    ensures
        covers(s, base, k) ==> base <= k < base + extent(s),
        extent(s) >= 0,
    decreases s.len(),
{
    if s.len() > 0 {
        lemma_covers_within(s.drop_first(), base + s[0].total(), k);
    }
}

proof fn lemma_covers_shift(s: Seq<Contig>, base: int, by: int, k: int)
    ensures
        covers(s, base, k) == covers(s, base + by, k + by),
    decreases s.len(),
{
    if s.len() > 0 {
        lemma_covers_shift(s.drop_first(), base + s[0].total(), by, k);
    }
}

/// Contigs in normal form are the runs of what they cover, one for one.
proof fn lemma_run_count(s: Seq<Contig>, base: int)
    requires
        normal(s),
    ensures
        run_starts(Set::new(|k: int| covers(s, base, k))).finite(),
        run_count(Set::new(|k: int| covers(s, base, k))) == s.len(),
    decreases s.len(),
{
    let all = Set::new(|k: int| covers(s, base, k));
    if s.len() == 0 {
        assert(run_starts(all) =~= Set::<int>::empty());
    } else {
        let rest = s.drop_first();
        let next = base + s[0].total();
        let tail = Set::new(|k: int| covers(rest, next, k));
        lemma_run_count(rest, next);
        let first = base + s[0].hole_size;
        assert forall|k: int| tail.contains(k) implies k > next by {
            lemma_covers_within(rest, next, k);
            if rest.len() > 0 {
                lemma_covers_within(rest.drop_first(), next + rest[0].total(), k);
                assert(rest[0] == s[1]);
            }
        }
        assert forall|k: int|
            run_starts(all).contains(k) == run_starts(tail).insert(first).contains(k) by {
            assert(all.contains(k) == (first <= k < next || tail.contains(k)));
            assert(all.contains(k - 1) == (first <= k - 1 < next || tail.contains(k - 1)));
        }
        assert(run_starts(all) =~= run_starts(tail).insert(first));
        assert(!run_starts(tail).contains(first));
    }
}

proof fn lemma_extent_split(s: Seq<Contig>, i: int)
    requires
        0 <= i <= s.len(),
    ensures
        s == s.take(i) + s.skip(i),
        extent(s) == extent(s.take(i)) + extent(s.skip(i)),
        extent(s.take(i)) >= 0,
        extent(s.skip(i)) >= 0,
        i < s.len() ==> extent(s.skip(i)) == s[i].total() + extent(s.skip(i + 1)),
        i < s.len() ==> extent(s.take(i + 1)) == extent(s.take(i)) + s[i].total(),
        i < s.len() ==> extent(s.skip(i + 1)) >= 0,
{
    assert(s =~= s.take(i) + s.skip(i));
    lemma_extent_concat(s.take(i), s.skip(i));
    lemma_extent_concat(s.skip(i), Seq::empty());
    if i < s.len() {
        assert(s.skip(i).drop_first() =~= s.skip(i + 1));
        lemma_extent_concat(s.skip(i + 1), Seq::empty());
        assert(s.take(i + 1) =~= s.take(i) + seq![s[i]]);
        lemma_extent_concat(s.take(i), seq![s[i]]);
        assert(seq![s[i]].drop_first() =~= Seq::<Contig>::empty());
        assert(extent(seq![s[i]]) == s[i].total()) by {
            reveal_with_fuel(extent, 2);
        }
    }
}

/// Replacing the contigs behind a prefix changes what is covered as it does without the prefix.
proof fn lemma_splice(a: Seq<Contig>, b: Seq<Contig>, c: Seq<Contig>, lo: int, hi: int)
    requires
        forall|k: int|
            #![trigger covers(c, extent(a), k)]
            covers(c, extent(a), k) == (covers(b, extent(a), k) || lo <= k < hi),
    ensures
        members(a + c) == members(a + b).union(span(lo, hi)),
{
    let left = members(a + c);
    let right = members(a + b).union(span(lo, hi));
    assert forall|k: int| left.contains(k) == right.contains(k) by {
        lemma_covers_concat(a, b, 0, k);
        lemma_covers_concat(a, c, 0, k);
        assert(covers(c, extent(a), k) == (covers(b, extent(a), k) || lo <= k < hi));
    }
    assert(left =~= right);
}

/// Data behind all contigs becomes a contig of its own.
proof fn lemma_push(s: Seq<Contig>, new: Contig)
    requires
        normal(s),
        new.data_size > 0,
        s.len() > 0 ==> new.hole_size > 0,
    ensures
        normal(s.push(new)),
        extent(s.push(new)) == extent(s) + new.total(),
        members(s.push(new)) == members(s).union(
            span(extent(s) + new.hole_size, extent(s) + new.total()),
        ),
        s.len() > 0 ==> !touches(members(s), extent(s) + new.hole_size, extent(s) + new.total()),
{
    let c = seq![new];
    assert(s.push(new) =~= s + c);
    assert(s + Seq::<Contig>::empty() =~= s);
    lemma_extent_concat(s, c);
    assert(c.drop_first() =~= Seq::<Contig>::empty());
    reveal_with_fuel(extent, 2);
    reveal_with_fuel(covers, 2);
    lemma_splice(s, Seq::empty(), c, extent(s) + new.hole_size, extent(s) + new.total());
    assert forall|k: int| members(s).contains(k) implies k < extent(s) by {
        lemma_covers_within(s, 0, k);
    }
}

/// Data inside the hole of contig `i`, with room on both sides, becomes a contig of its own.
proof fn lemma_insert(s: Seq<Contig>, i: int, new: Contig, shrunk: Contig)
    requires
        normal(s),
        0 <= i < s.len(),
        new.data_size > 0,
        i > 0 ==> new.hole_size > 0,
        shrunk.hole_size == s[i].hole_size - new.total(),
        shrunk.hole_size > 0,
        shrunk.data_size == s[i].data_size,
    ensures
        normal(s.update(i, shrunk).insert(i, new)),
        extent(s.update(i, shrunk).insert(i, new)) == extent(s),
        members(s.update(i, shrunk).insert(i, new)) == members(s).union(
            span(extent(s.take(i)) + new.hole_size, extent(s.take(i)) + new.total()),
        ),
        !touches(
            members(s),
            extent(s.take(i)) + new.hole_size,
            extent(s.take(i)) + new.total(),
        ),
{
    let a = s.take(i);
    let b = s.skip(i);
    let base = extent(a);
    let u = s.update(i, shrunk).insert(i, new);
    let c = u.skip(i);
    lemma_extent_split(s, i);
    lemma_extent_split(u, i);
    lemma_extent_split(u, i + 1);
    assert(u.take(i) =~= a);
    assert(c.drop_first() =~= u.skip(i + 1));
    assert(u.skip(i + 1).drop_first() =~= s.skip(i + 1));
    assert(u.skip(i + 2) =~= s.skip(i + 1));
    assert(b.drop_first() =~= s.skip(i + 1));
    assert forall|k: int|
        #![trigger covers(c, base, k)]
        covers(c, base, k) == (covers(b, base, k) || base + new.hole_size <= k < base
            + new.total()) by {
        assert(covers(c, base, k) == (base + new.hole_size <= k < base + new.total() || covers(
            u.skip(i + 1),
            base + new.total(),
            k,
        )));
    }
    lemma_splice(a, b, c, base + new.hole_size, base + new.total());
    assert forall|k: int|
        base + new.hole_size - 1 <= k <= base + new.total() implies !members(s).contains(k) by {
        lemma_covers_concat(a, b, 0, k);
        lemma_covers_within(a, 0, k);
        lemma_covers_within(b.drop_first(), base + s[i].total(), k);
    }
}

/// Filling the end of the hole of contig `i`.
proof fn lemma_fill(s: Seq<Contig>, i: int, filled: Contig)
    requires
        normal(s),
        0 <= i < s.len(),
        i > 0 ==> filled.hole_size > 0,
        filled.hole_size < s[i].hole_size,
        filled.total() == s[i].total(),
    ensures
        normal(s.update(i, filled)),
        extent(s.update(i, filled)) == extent(s),
        s.update(i, filled).take(i) == s.take(i),
        members(s.update(i, filled)) == members(s).union(
            span(extent(s.take(i)) + filled.hole_size, extent(s.take(i)) + s[i].hole_size),
        ),
{
    let u = s.update(i, filled);
    lemma_extent_split(s, i);
    lemma_extent_split(u, i);
    assert(u.take(i) =~= s.take(i));
    assert(u.skip(i).drop_first() =~= s.skip(i).drop_first());
    assert(u.skip(i + 1) =~= s.skip(i + 1));
    lemma_splice(
        s.take(i),
        s.skip(i),
        u.skip(i),
        extent(s.take(i)) + filled.hole_size,
        extent(s.take(i)) + s[i].hole_size,
    );
}

/// A range that starts in contig `i` and reaches its data, or starts in or right behind its
/// data, touches it.
proof fn lemma_touches(s: Seq<Contig>, i: int, rel: int, size: int)
    requires
        normal(s),
        0 <= i < s.len(),
        0 <= rel <= s[i].total(),
        size > 0,
        rel + size >= s[i].hole_size,
    ensures
        touches(members(s), extent(s.take(i)) + rel, extent(s.take(i)) + rel + size),
{
    let base = extent(s.take(i));
    let k = if rel <= s[i].hole_size {
        base + s[i].hole_size
    } else {
        base + rel - 1
    };
    lemma_extent_split(s, i);
    lemma_covers_concat(s.take(i), s.skip(i), 0, k);
    assert(covers(s.skip(i), base, k));
    assert(members(s).contains(k));
}

/// The data of contig `i` is data.
proof fn lemma_data(s: Seq<Contig>, i: int)
    requires
        0 <= i < s.len(),
    ensures
        forall|k: int|
            extent(s.take(i)) + s[i].hole_size <= k < extent(s.take(i)) + s[i].total()
                ==> members(s).contains(k),
{
    lemma_extent_split(s, i);
    let base = extent(s.take(i));
    assert forall|k: int| base + s[i].hole_size <= k < base + s[i].total() implies members(
        s,
    ).contains(k) by {
        lemma_covers_concat(s.take(i), s.skip(i), 0, k);
        assert(covers(s.skip(i), base, k));
    }
}

/// Joining contig `i` and the next one fills the hole between them.
proof fn lemma_join(s: Seq<Contig>, i: int, joined: Contig)
    requires
        normal(s),
        0 <= i,
        i + 1 < s.len(),
        joined.hole_size == s[i].hole_size,
        joined.data_size == s[i].data_size + s[i + 1].total(),
    ensures
        normal(s.remove(i + 1).update(i, joined)),
        extent(s.remove(i + 1).update(i, joined)) == extent(s),
        s.remove(i + 1).update(i, joined).take(i) == s.take(i),
        members(s.remove(i + 1).update(i, joined)) == members(s).union(
            span(
                extent(s.take(i)) + s[i].total(),
                extent(s.take(i)) + s[i].total() + s[i + 1].hole_size,
            ),
        ),
{
    let u = s.remove(i + 1).update(i, joined);
    let a = s.take(i);
    let b = s.skip(i);
    let c = u.skip(i);
    let base = extent(a);
    let gap = base + s[i].total();
    lemma_extent_split(s, i);
    lemma_extent_split(s, i + 1);
    lemma_extent_split(u, i);
    assert(u.take(i) =~= a);
    assert(u.skip(i + 1) =~= s.skip(i + 2));
    assert(c.drop_first() =~= s.skip(i + 2));
    assert(b.drop_first() =~= s.skip(i + 1));
    assert(s.skip(i + 1).drop_first() =~= s.skip(i + 2));
    assert forall|k: int|
        #![trigger covers(c, base, k)]
        covers(c, base, k) == (covers(b, base, k) || gap <= k < gap + s[i + 1].hole_size) by {
        assert(covers(b, base, k) == (base + s[i].hole_size <= k < gap || covers(
            s.skip(i + 1),
            gap,
            k,
        )));
    }
    lemma_splice(a, b, c, gap, gap + s[i + 1].hole_size);
}

/// Lengthening the data of contig `i` by less than the hole of the next one.
proof fn lemma_stretch_to_next(s: Seq<Contig>, i: int, longer: Contig, nearer: Contig)
    requires
        normal(s),
        0 <= i,
        i + 1 < s.len(),
        longer.hole_size == s[i].hole_size,
        longer.data_size > s[i].data_size,
        nearer.hole_size == s[i + 1].hole_size - (longer.data_size - s[i].data_size),
        nearer.hole_size > 0,
        nearer.data_size == s[i + 1].data_size,
    ensures
        normal(s.update(i, longer).update(i + 1, nearer)),
        extent(s.update(i, longer).update(i + 1, nearer)) == extent(s),
        members(s.update(i, longer).update(i + 1, nearer)) == members(s).union(
            span(extent(s.take(i)) + s[i].total(), extent(s.take(i)) + longer.total()),
        ),
{
    let u = s.update(i, longer).update(i + 1, nearer);
    let a = s.take(i);
    let b = s.skip(i);
    let c = u.skip(i);
    let base = extent(a);
    lemma_extent_split(s, i);
    lemma_extent_split(s, i + 1);
    lemma_extent_split(u, i);
    lemma_extent_split(u, i + 1);
    assert(u.take(i) =~= a);
    assert(u.skip(i + 2) =~= s.skip(i + 2));
    assert(c.drop_first() =~= u.skip(i + 1));
    assert(u.skip(i + 1).drop_first() =~= s.skip(i + 2));
    assert(b.drop_first() =~= s.skip(i + 1));
    assert(s.skip(i + 1).drop_first() =~= s.skip(i + 2));
    assert forall|k: int|
        #![trigger covers(c, base, k)]
        covers(c, base, k) == (covers(b, base, k) || base + s[i].total() <= k < base
            + longer.total()) by {
        assert(covers(b, base, k) == (base + s[i].hole_size <= k < base + s[i].total() || covers(
            s.skip(i + 1),
            base + s[i].total(),
            k,
        )));
        assert(covers(c, base, k) == (base + s[i].hole_size <= k < base + longer.total() || covers(
            u.skip(i + 1),
            base + longer.total(),
            k,
        )));
    }
    lemma_splice(a, b, c, base + s[i].total(), base + longer.total());
}

/// Lengthening the data of the last contig.
proof fn lemma_stretch_last(s: Seq<Contig>, longer: Contig)
    requires
        normal(s),
        s.len() > 0,
        longer.hole_size == s.last().hole_size,
        longer.data_size > s.last().data_size,
    ensures
        normal(s.update(s.len() - 1, longer)),
        extent(s.update(s.len() - 1, longer)) == extent(s.take(s.len() - 1)) + longer.total(),
        members(s.update(s.len() - 1, longer)) == members(s).union(
            span(
                extent(s.take(s.len() - 1)) + s.last().total(),
                extent(s.take(s.len() - 1)) + longer.total(),
            ),
        ),
{
    let i = s.len() - 1;
    let u = s.update(i, longer);
    let b = s.skip(i);
    let c = u.skip(i);
    let base = extent(s.take(i));
    lemma_extent_split(s, i);
    lemma_extent_split(u, i);
    assert(u.take(i) =~= s.take(i));
    assert(u.skip(i + 1) =~= Seq::<Contig>::empty());
    assert(c.drop_first() =~= Seq::<Contig>::empty());
    assert(b.drop_first() =~= Seq::<Contig>::empty());
    reveal_with_fuel(covers, 2);
    lemma_splice(s.take(i), b, c, base + s[i].total(), base + longer.total());
}

/// A buffer (re)assembler.
///
/// It tracks which octets of a stream have arrived out of order, counted from the first octet
/// that has not been handed on yet. Its view is the set of the octets that are there.
#[derive(Debug)]
pub struct Assembler {
    contigs: Vec<Contig>,
}

impl View for Assembler {
    type V = Set<int>;

    closed spec fn view(&self) -> Set<int> {
        members(self.contigs@)
    }
}

impl Assembler {
    /// The representation is sound: runs are kept apart and in order, there are no more of them
    /// than there is room for, and offsets fit in a `usize`.
    pub closed spec fn wf(&self) -> bool {
        &&& normal(self.contigs@)
        &&& self.contigs@.len() <= ASSEMBLER_MAX_SEGMENT_COUNT
        &&& extent(self.contigs@) <= usize::MAX
    }

    /// Creates an assembler that holds nothing.
    pub fn new() -> (r: Assembler)
        ensures
            r.wf(),
            r@ == Set::<int>::empty(),
    {
        let r = Assembler { contigs: Vec::new() };
        assert(r@ =~= Set::<int>::empty());
        r
    }

    /// Whether the assembler holds nothing.
    pub fn is_empty(&self) -> (r: bool)
        requires
            self.wf(),
        ensures
            r == (self@ == Set::<int>::empty()),
    {
        let r = self.contigs.len() == 0;
        proof {
            if r {
                assert(self@ =~= Set::<int>::empty());
            } else {
                assert(self@.contains(self.contigs@[0].hole_size as int));
            }
        }
        r
    }

    /// Finds the contig that `offset` falls into or ends: its index, and the offset counted
    /// from its start. Past all contigs the index is their number.
    fn locate(&self, offset: usize) -> (r: (usize, usize))
        requires
            self.wf(),
        ensures
            r.0 <= self.contigs@.len(),
            r.1 + extent(self.contigs@.take(r.0 as int)) == offset,
            r.0 > 0 ==> r.1 > 0,
            r.0 < self.contigs@.len() ==> r.1 <= self.contigs@[r.0 as int].total(),
    {
        let ghost s = self.contigs@;
        let mut i: usize = 0;
        let mut rel: usize = offset;
        assert(s.take(0) =~= Seq::<Contig>::empty());
        while i < self.contigs.len()
            invariant
                self.wf(),
                s == self.contigs@,
                i <= s.len(),
                rel + extent(s.take(i as int)) == offset,
                i > 0 ==> rel > 0,
            decreases s.len() - i,
        {
            proof {
                lemma_extent_split(s, i as int);
            }
            let total: usize = self.contigs[i].total_size();
            if rel <= total {
                return (i, rel);
            }
            rel = rel - total;
            i = i + 1;
        }
        (i, rel)
    }

    /// Whether contig `i` has a successor whose data starts at or before `end`, counted from
    /// the start of contig `i`.
    fn reaches_next(&self, i: usize, end: usize) -> (r: bool)
        requires
            i < self.contigs@.len() <= ASSEMBLER_MAX_SEGMENT_COUNT,
            extent(self.contigs@) <= usize::MAX,
        ensures
            r == (i + 1 < self.contigs@.len() && end >= self.contigs@[i as int].total()
                + self.contigs@[i + 1].hole_size),
    {
        if i + 1 < self.contigs.len() {
            proof {
                lemma_extent_split(self.contigs@, i as int);
                lemma_extent_split(self.contigs@, i + 1);
            }
            end >= self.contigs[i].total_size() + self.contigs[i + 1].hole_size
        } else {
            false
        }
    }

    /// Extends the data of contig `i` to `end`, both `rel` and `end` counted from the start of
    /// that contig, and joins to it the contigs that it then reaches.
    fn extend(&mut self, i: usize, rel: usize, end: usize)
        requires
            old(self).wf(),
            i < old(self).contigs@.len(),
            old(self).contigs@[i as int].hole_size <= rel <= old(self).contigs@[i as int].total(),
            rel <= end,
            extent(old(self).contigs@.take(i as int)) + end <= usize::MAX,
        ensures
            final(self).wf(),
            final(self)@ == old(self)@.union(
                span(
                    extent(old(self).contigs@.take(i as int)) + rel,
                    extent(old(self).contigs@.take(i as int)) + end,
                ),
            ),
    {
        let ghost s = self.contigs@;
        let ghost base = extent(s.take(i as int));
        let ghost range = span(base + rel, base + end);
        while self.reaches_next(i, end)
            invariant
                i < self.contigs@.len() <= s.len() <= ASSEMBLER_MAX_SEGMENT_COUNT,
                normal(self.contigs@),
                extent(self.contigs@) == extent(s) <= usize::MAX,
                base == extent(self.contigs@.take(i as int)),
                range == span(base + rel, base + end),
                self.contigs@[i as int].hole_size <= rel <= self.contigs@[i as int].total(),
                rel <= end,
                members(self.contigs@).union(range) == members(s).union(range),
            decreases self.contigs@.len(),
        {
            let ghost t = self.contigs@;
            proof {
                lemma_extent_split(t, i as int);
                lemma_extent_split(t, i + 1);
            }
            let next: Contig = self.contigs.remove(i + 1);
            let cur: Contig = self.contigs[i];
            let joined: Contig = Contig {
                hole_size: cur.hole_size,
                data_size: cur.data_size + next.total_size(),
            };
            self.contigs[i] = joined;
            proof {
                lemma_join(t, i as int, joined);
                assert(members(self.contigs@).union(range) =~= members(t).union(range));
            }
        }
        let ghost t = self.contigs@;
        proof {
            lemma_extent_split(t, i as int);
            lemma_data(t, i as int);
        }
        let cur: Contig = self.contigs[i];
        let total: usize = cur.total_size();
        if end > total {
            let left: usize = end - total;
            let longer: Contig = Contig {
                hole_size: cur.hole_size,
                data_size: cur.data_size + left,
            };
            self.contigs[i] = longer;
            if i + 1 < self.contigs.len() {
                let next: Contig = self.contigs[i + 1];
                let nearer: Contig = Contig {
                    hole_size: next.hole_size - left,
                    data_size: next.data_size,
                };
                self.contigs[i + 1] = nearer;
                proof {
                    lemma_stretch_to_next(t, i as int, longer, nearer);
                }
            } else {
                proof {
                    lemma_stretch_last(t, longer);
                }
            }
        }
        assert(self@ =~= old(self)@.union(range));
    }

    /// Adds the octets `offset .. offset + size`.
    ///
    /// Fails, and changes nothing, exactly when they would make up one more run of data than
    /// there is room for.
    pub fn add(&mut self, offset: usize, size: usize) -> (r: Result<(), TooManyHolesError>)
        requires
            old(self).wf(),
            offset + size <= usize::MAX,
        ensures
            final(self).wf(),
            r is Err <==> size > 0 && run_count(old(self)@) == ASSEMBLER_MAX_SEGMENT_COUNT
                && !touches(old(self)@, offset as int, offset + size),
            r is Ok ==> final(self)@ == old(self)@.union(span(offset as int, offset + size)),
            r is Err ==> *final(self) == *old(self),
    {
        if size == 0 {
            assert(self@ =~= old(self)@.union(span(offset as int, offset + size)));
            return Ok(());
        }
        let ghost s = self.contigs@;
        let (i, rel) = self.locate(offset);
        proof {
            lemma_run_count(s, 0);
            lemma_extent_split(s, i as int);
        }
        if i == self.contigs.len() {
            let new: Contig = Contig { hole_size: rel, data_size: size };
            proof {
                assert(s.take(i as int) =~= s);
                lemma_push(s, new);
            }
            if i == ASSEMBLER_MAX_SEGMENT_COUNT {
                return Err(TooManyHolesError);
            }
            self.contigs.push(new);
            return Ok(());
        }
        let cur: Contig = self.contigs[i];
        if rel < cur.hole_size && size < cur.hole_size - rel {
            let new: Contig = Contig { hole_size: rel, data_size: size };
            let shrunk: Contig = Contig {
                hole_size: cur.hole_size - rel - size,
                data_size: cur.data_size,
            };
            proof {
                lemma_insert(s, i as int, new, shrunk);
            }
            if self.contigs.len() == ASSEMBLER_MAX_SEGMENT_COUNT {
                return Err(TooManyHolesError);
            }
            self.contigs[i] = shrunk;
            self.contigs.insert(i, new);
            return Ok(());
        }
        proof {
            lemma_touches(s, i as int, rel as int, size as int);
        }
        if rel < cur.hole_size {
            let filled: Contig = Contig { hole_size: rel, data_size: cur.total_size() - rel };
            proof {
                lemma_fill(s, i as int, filled);
            }
            self.contigs[i] = filled;
        }
        self.extend(i, rel, rel + size);
        assert(self@ =~= old(self)@.union(span(offset as int, offset + size)));
        Ok(())
    }

    /// Takes away the run of data at the front, and returns its length. Without such a run
    /// nothing is taken away.
    pub fn remove_front(&mut self) -> (r: usize)
        requires
            old(self).wf(),
        ensures
            final(self).wf(),
            is_front_run(old(self)@, r as int),
            final(self)@ == advanced(old(self)@, r as int),
    {
        let ghost s = self.contigs@;
        if self.contigs.len() == 0 || self.contigs[0].hole_size > 0 {
            proof {
                assert forall|k: int| k <= 0 implies !self@.contains(k) by {
                    lemma_covers_within(s, 0, k);
                    if s.len() > 0 {
                        lemma_covers_within(s.drop_first(), s[0].total(), k);
                    }
                }
                assert(self@ =~= advanced(self@, 0));
            }
            return 0;
        }
        let front: Contig = self.contigs.remove(0);
        proof {
            let rest = s.drop_first();
            let n = front.data_size as int;
            assert(self.contigs@ =~= rest);
            assert(!covers(rest, n, n)) by {
                if rest.len() > 0 {
                    assert(rest[0] == s[1]);
                    assert(rest[0].hole_size > 0);
                    lemma_covers_within(rest.drop_first(), n + rest[0].total(), n);
                }
            }
            assert forall|k: int| self@.contains(k) == advanced(old(self)@, n).contains(k) by {
                lemma_covers_shift(rest, 0, n, k);
                lemma_covers_within(rest, 0, k);
            }
            assert(self@ =~= advanced(old(self)@, n));
            assert(s[0].hole_size == 0 && s[0].total() == n);
            assert forall|k: int| 0 <= k < n implies old(self)@.contains(k) by {
                assert(covers(s, 0, k));
            }
            assert(!covers(s, 0, n));
            assert(is_front_run(old(self)@, n));
            assert(normal(rest)) by {
                assert forall|j: int| 0 <= j < rest.len() implies (#[trigger] rest[j]).data_size > 0
                    && rest[j].hole_size > 0 by {
                    assert(rest[j] == s[j + 1]);
                }
            }
        }
        front.data_size
    }

    /// Adds the octets `offset .. offset + size`, then takes away the run of data at the front
    /// and returns its length.
    ///
    /// This never fails when `offset` is 0: the octets that are expected next are never dropped.
    pub fn add_then_remove_front(&mut self, offset: usize, size: usize) -> (r: Result<
        usize,
        TooManyHolesError,
    >)
        requires
            old(self).wf(),
            offset + size <= usize::MAX,
        ensures
            final(self).wf(),
            r is Err <==> offset > 0 && size > 0 && run_count(old(self)@)
                == ASSEMBLER_MAX_SEGMENT_COUNT && !touches(
                old(self)@,
                offset as int,
                offset + size,
            ),
            r is Err ==> *final(self) == *old(self),
            r matches Ok(n) ==> {
                let there = old(self)@.union(span(offset as int, offset + size));
                &&& n == front_run(there)
                &&& is_front_run(there, n as int)
                &&& final(self)@ == advanced(there, n as int)
            },
    {
        let ghost s = self.contigs@;
        let ghost there = self@.union(span(offset as int, offset + size));
        if offset == 0 && self.contigs.len() > 0 && size < self.contigs[0].hole_size {
            let front: Contig = self.contigs[0];
            self.contigs[0] = Contig {
                hole_size: front.hole_size - size,
                data_size: front.data_size,
            };
            proof {
                let u = self.contigs@;
                let n = size as int;
                let rest = s.drop_first();
                assert(u.drop_first() =~= rest);
                lemma_extent_split(s, 0);
                lemma_extent_split(u, 0);
                assert(s.skip(0) =~= s);
                assert(u.skip(0) =~= u);
                assert(s.skip(1) =~= rest);
                assert(u.skip(1) =~= rest);
                assert forall|k: int| self@.contains(k) == advanced(there, n).contains(k) by {
                    lemma_covers_shift(rest, u[0].total(), n, k);
                    lemma_covers_within(rest, u[0].total(), k);
                }
                assert(self@ =~= advanced(there, n));
                lemma_covers_within(rest, s[0].total(), n);
                assert(is_front_run(there, n));
                front_run_is_unique(there, n);
            }
            return Ok(size);
        }
        match self.add(offset, size) {
            Ok(()) => {
                let n: usize = self.remove_front();
                proof {
                    front_run_is_unique(there, n as int);
                }
                Ok(n)
            },
            Err(e) => {
                proof {
                    lemma_run_count(s, 0);
                    if offset == 0 {
                        assert(old(self)@.contains(s[0].hole_size as int));
                        assert(touches(old(self)@, 0, size as int));
                    }
                }
                Err(e)
            },
        }
    }
}

/// An assembler never holds more runs of data than there is room for, nor anything before the
/// origin.
pub proof fn assembler_is_bounded(assembler: Assembler)
    requires
        assembler.wf(),
    ensures
        run_count(assembler@) <= ASSEMBLER_MAX_SEGMENT_COUNT,
        forall|k: int| assembler@.contains(k) ==> 0 <= k <= usize::MAX,
{
    let s = assembler.contigs@;
    lemma_run_count(s, 0);
    assert forall|k: int| assembler@.contains(k) implies 0 <= k <= usize::MAX by {
        lemma_covers_within(s, 0, k);
    }
}

} // verus!
