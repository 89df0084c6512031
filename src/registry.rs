//! The address space registry: named, half-open address ranges, kept in the
//! order in which they were first added, with one range per name.
use vstd::prelude::*;
use vstd::string::StrSliceExecFns;

verus! {

/// A named region `[start, end)` of the inspected memory.
#[derive(Debug)]
pub struct AddressRange {
    pub name: String,
    pub start: usize,
    pub end: usize,
}

impl AddressRange {
    pub open spec fn wf(&self) -> bool {
        self.start <= self.end
    }

    pub open spec fn spec_len(&self) -> int {
        self.end - self.start
    }

    pub open spec fn spec_contains(&self, address: int) -> bool {
        self.start <= address < self.end
    }

    /// The number of addresses in the range.
    pub fn len(&self) -> (r: usize)
        requires
            self.wf(),
        ensures
            r == self.spec_len(),
    {
        self.end - self.start
    }

    /// Whether `address` lies in the range.
    pub fn contains(&self, address: usize) -> (r: bool)
        ensures
            r == self.spec_contains(address as int),
    {
        self.start <= address && address < self.end
    }
}

/// `a` comes before `b` when both agree up to position `i`: compared
/// character by character from `i`, by code point, a proper prefix first.
pub open spec fn name_lt_from(a: Seq<char>, b: Seq<char>, i: int) -> bool
    decreases a.len() - i,
{
    if i >= a.len() {
        i < b.len()
    } else if i >= b.len() {
        false
    } else if a[i] != b[i] {
        a[i] < b[i]
    } else {
        name_lt_from(a, b, i + 1)
    }
}

/// The order of names: lexicographic by code point, as `Ord for String`.
pub open spec fn name_lt(a: Seq<char>, b: Seq<char>) -> bool {
    name_lt_from(a, b, 0)
}

/// The order of names is transitive.
pub proof fn lemma_name_lt_transitive(a: Seq<char>, b: Seq<char>, c: Seq<char>, i: int)
    requires
        0 <= i,
        name_lt_from(a, b, i),
        name_lt_from(b, c, i),
    ensures
        name_lt_from(a, c, i),
    decreases a.len() - i,
{
    if i < a.len() && i < b.len() && i < c.len() && a[i] == b[i] && b[i] == c[i] {
        lemma_name_lt_transitive(a, b, c, i + 1);
    }
}

/// Of two different names, one comes before the other.
pub proof fn lemma_name_lt_total(a: Seq<char>, b: Seq<char>, i: int)
    requires
        0 <= i <= a.len(),
        i <= b.len(),
        a.subrange(0, i) == b.subrange(0, i),
        a != b,
    ensures
        name_lt_from(a, b, i) || name_lt_from(b, a, i),
    decreases a.len() - i,
{
    if i < a.len() && i < b.len() && a[i] == b[i] {
        assert(a.subrange(0, i + 1) =~= a.subrange(0, i).push(a[i]));
        assert(b.subrange(0, i + 1) =~= b.subrange(0, i).push(b[i]));
        lemma_name_lt_total(a, b, i + 1);
    } else if i >= a.len() && i >= b.len() {
        assert(a =~= a.subrange(0, i));
        assert(b =~= b.subrange(0, i));
    }
}

/// No name comes before itself.
pub proof fn lemma_name_lt_irreflexive(a: Seq<char>, i: int)
    requires
        0 <= i,
    ensures
        !name_lt_from(a, a, i),
    decreases a.len() - i,
{
    if i < a.len() {
        lemma_name_lt_irreflexive(a, i + 1);
    }
}

/// Whether the name `a` comes before the name `b`.
pub fn name_less(a: &String, b: &String) -> (r: bool)
    ensures
        r == name_lt(a@, b@),
{
    let sa = a.as_str();
    let sb = b.as_str();
    let la = sa.unicode_len();
    let lb = sb.unicode_len();
    let mut i: usize = 0;
    while i < la && i < lb
        invariant
            la == a@.len(),
            lb == b@.len(),
            sa@ == a@,
            sb@ == b@,
            i <= la,
            i <= lb,
            name_lt_from(a@, b@, 0) == name_lt_from(a@, b@, i as int),
        decreases la - i,
    {
        let ca = sa.get_char(i);
        let cb = sb.get_char(i);
        if ca != cb {
            return ca < cb;
        }
        i = i + 1;
    }
    i < lb
}

/// The position at which `x` goes in the ascending `r`: after every name
/// that comes before it.
fn insertion_point(r: &Vec<String>, x: &String) -> (p: usize)
    ensures
        p <= r@.len(),
        forall|q: int| 0 <= q < p ==> name_lt(#[trigger] r@[q]@, x@),
        p < r@.len() ==> !name_lt(r@[p as int]@, x@),
{
    let mut p: usize = 0;
    while p < r.len() && name_less(&r[p], x)
        invariant
            p <= r@.len(),
            forall|q: int| 0 <= q < p ==> name_lt(#[trigger] r@[q]@, x@),
        decreases r@.len() - p,
    {
        p = p + 1;
    }
    p
}

/// The text of each string.
pub open spec fn string_views(s: Seq<String>) -> Seq<Seq<char>> {
    s.map_values(|x: String| x@)
}

/// The names of the ranges, in order.
pub open spec fn names_of(s: Seq<AddressRange>) -> Seq<Seq<char>> {
    s.map_values(|x: AddressRange| x.name@)
}

/// Each name comes before the next.
pub open spec fn names_ascending(s: Seq<Seq<char>>) -> bool {
    forall|a: int, b: int| 0 <= a < b < s.len() ==> name_lt(#[trigger] s[a], #[trigger] s[b])
}

/// `s` and `t` hold the same names.
pub open spec fn same_names(s: Seq<Seq<char>>, t: Seq<Seq<char>>) -> bool {
    &&& forall|k: int| 0 <= k < t.len() ==> s.contains(#[trigger] t[k])
    &&& forall|m: int| 0 <= m < s.len() ==> t.contains(#[trigger] s[m])
}

/// Inserting a new name where it belongs keeps a list ascending and holding
/// the names seen so far.
proof fn lemma_insert_step(rv: Seq<Seq<char>>, ns: Seq<Seq<char>>, x: Seq<char>, p: int)
    requires
        names_ascending(rv),
        same_names(rv, ns),
        forall|k: int| 0 <= k < ns.len() ==> ns[k] != x,
        0 <= p <= rv.len(),
        forall|q: int| 0 <= q < p ==> name_lt(#[trigger] rv[q], x),
        p < rv.len() ==> !name_lt(rv[p], x),
    ensures
        names_ascending(rv.insert(p, x)),
        same_names(rv.insert(p, x), ns.push(x)),
{
    let nv = rv.insert(p, x);
    if p < rv.len() {
        let k = choose|k: int| 0 <= k < ns.len() && ns[k] == rv[p];
        assert(x.subrange(0, 0) =~= rv[p].subrange(0, 0));
        lemma_name_lt_total(x, rv[p], 0);
    }
    assert forall|q: int| p < q < rv.len() implies name_lt(x, #[trigger] rv[q]) by {
        assert(name_lt(rv[p], rv[q]));
        lemma_name_lt_transitive(x, rv[p], rv[q], 0);
    }
    assert forall|a: int, b: int| 0 <= a < b < nv.len() implies name_lt(
        #[trigger] nv[a],
        #[trigger] nv[b],
    ) by {
        if b < p {
            assert(name_lt(rv[a], rv[b]));
        } else if b == p {
        } else if a < p {
            assert(nv[b] == rv[b - 1]);
            if b - 1 > p {
            }
            lemma_name_lt_transitive(rv[a], x, rv[b - 1], 0);
        } else if a == p {
            assert(nv[b] == rv[b - 1]);
        } else {
            assert(name_lt(rv[a - 1], rv[b - 1]));
        }
    }
    let nn = ns.push(x);
    assert forall|k: int| 0 <= k < nn.len() implies nv.contains(#[trigger] nn[k]) by {
        if k == ns.len() {
            assert(nv[p] == x);
        } else {
            assert(nn[k] == ns[k]);
            assert(rv.contains(ns[k]));
            let m = choose|m: int| 0 <= m < rv.len() && rv[m] == ns[k];
            if m < p {
                assert(nv[m] == rv[m]);
            } else {
                assert(nv[m + 1] == rv[m]);
            }
        }
    }
    assert forall|m: int| 0 <= m < nv.len() implies nn.contains(#[trigger] nv[m]) by {
        if m == p {
            assert(nn[ns.len() as int] == x);
        } else {
            let om = if m < p { m } else { m - 1 };
            assert(nv[m] == rv[om]);
            assert(ns.contains(rv[om]));
            let k = choose|k: int| 0 <= k < ns.len() && ns[k] == rv[om];
            assert(nn[k] == ns[k]);
        }
    }
}

/// Some range of `s` is named `name`.
pub open spec fn has_name(s: Seq<AddressRange>, name: Seq<char>) -> bool {
    exists|i: int| 0 <= i < s.len() && (#[trigger] s[i]).name@ == name
}

/// The position of the range named `name` in `s`, if there is one.
pub open spec fn position_of(s: Seq<AddressRange>, name: Seq<char>) -> int {
    choose|i: int| 0 <= i < s.len() && (#[trigger] s[i]).name@ == name
}

/// The range named `name` in `s`.
pub open spec fn lookup(s: Seq<AddressRange>, name: Seq<char>) -> Option<AddressRange> {
    if has_name(s, name) {
        Some(s[position_of(s, name)])
    } else {
        None
    }
}

/// `s` with `r` added: it takes the place of the range of the same name, or
/// comes last when there is none.
pub open spec fn with_range(s: Seq<AddressRange>, r: AddressRange) -> Seq<AddressRange> {
    if has_name(s, r.name@) {
        s.update(position_of(s, r.name@), r)
    } else {
        s.push(r)
    }
}

/// Every range is well formed and no two share a name.
pub open spec fn ranges_wf(s: Seq<AddressRange>) -> bool {
    &&& forall|i: int| 0 <= i < s.len() ==> (#[trigger] s[i]).wf()
    &&& forall|i: int, j: int|
        0 <= i < s.len() && 0 <= j < s.len() && i != j ==> (#[trigger] s[i]).name@ != (
        #[trigger] s[j]).name@
}

/// The named address ranges of an editor.
pub struct AddressRegistry {
    ranges: Vec<AddressRange>,
}

impl View for AddressRegistry {
    type V = Seq<AddressRange>;

    closed spec fn view(&self) -> Seq<AddressRange> {
        self.ranges@
    }
}

impl AddressRegistry {
    pub open spec fn wf(&self) -> bool {
        ranges_wf(self@)
    }

    /// An empty registry.
    pub fn new() -> (r: Self)
        ensures
            r@ == Seq::<AddressRange>::empty(),
            r.wf(),
    {
        AddressRegistry { ranges: Vec::new() }
    }

    /// The number of ranges.
    pub fn len(&self) -> (r: usize)
        ensures
            r == self@.len(),
    {
        self.ranges.len()
    }

    /// The position of the range named `name`.
    pub fn find(&self, name: &String) -> (r: Option<usize>)
        requires
            self.wf(),
        ensures
            r is None <==> !has_name(self@, name@),
            r matches Some(i) ==> i < self@.len() && i == position_of(self@, name@)
                && self@[i as int].name@ == name@,
    {
        let mut i: usize = 0;
        while i < self.ranges.len()
            invariant
                self.wf(),
                i <= self@.len(),
                forall|k: int| 0 <= k < i ==> (#[trigger] self@[k]).name@ != name@,
            decreases self@.len() - i,
        {
            if self.ranges[i].name == *name {
                proof {
                    assert(self@[i as int].name@ == name@);
                    assert(has_name(self@, name@));
                    let p = position_of(self@, name@);
                    assert(0 <= p < self@.len() && self@[p].name@ == name@);
                    if p != i as int {
                        assert(self@[p].name@ != self@[i as int].name@);
                    }
                }
                return Some(i);
            }
            i = i + 1;
        }
        None
    }

    /// The range named `name`.
    pub fn get(&self, name: &String) -> (r: Option<&AddressRange>)
        requires
            self.wf(),
        ensures
            r is None <==> lookup(self@, name@) is None,
            r matches Some(x) ==> lookup(self@, name@) == Some(*x) && x.name@ == name@ && x.wf(),
    {
        match self.find(name) {
            Some(i) => Some(&self.ranges[i]),
            None => None,
        }
    }

    /// The range that was added first.
    pub fn first(&self) -> (r: Option<&AddressRange>)
        ensures
            r is None <==> self@.len() == 0,
            r matches Some(x) ==> x == self@[0],
    {
        if self.ranges.len() == 0 {
            None
        } else {
            Some(&self.ranges[0])
        }
    }

    /// Adds `range`, in place of the range of the same name if there is one.
    pub fn insert(&mut self, range: AddressRange)
        requires
            old(self).wf(),
            range.wf(),
        ensures
            final(self)@ == with_range(old(self)@, range),
            final(self).wf(),
    {
        match self.find(&range.name) {
            Some(i) => {
                self.ranges.set(i, range);
            },
            None => {
                self.ranges.push(range);
            },
        }
    }

    /// The names of the ranges in ascending order, each once: the order in
    /// which the region picker lists them.
    pub fn sorted_names(&self) -> (r: Vec<String>)
        requires
            self.wf(),
        ensures
            r@.len() == self@.len(),
            names_ascending(string_views(r@)),
            same_names(string_views(r@), names_of(self@)),
    {
        let mut r: Vec<String> = Vec::new();
        let mut i: usize = 0;
        proof {
            assert(string_views(r@) =~= Seq::<Seq<char>>::empty());
        }
        while i < self.ranges.len()
            invariant
                self.wf(),
                i <= self@.len(),
                r@.len() == i,
                names_ascending(string_views(r@)),
                same_names(string_views(r@), names_of(self@).subrange(0, i as int)),
            decreases self@.len() - i,
        {
            let x = self.ranges[i].name.clone();
            let p = insertion_point(&r, &x);
            let ghost rv = string_views(r@);
            let ghost ns = names_of(self@).subrange(0, i as int);
            proof {
                assert forall|k: int| 0 <= k < ns.len() implies ns[k] != x@ by {
                    assert(self@[k].name@ != self@[i as int].name@);
                }
                assert forall|q: int| 0 <= q < p implies name_lt(rv[q], x@) by {
                    assert(rv[q] == r@[q]@);
                }
                if p < r@.len() {
                    assert(rv[p as int] == r@[p as int]@);
                }
                lemma_insert_step(rv, ns, x@, p as int);
            }
            r.insert(p, x);
            proof {
                assert(string_views(r@) =~= rv.insert(p as int, x@));
                assert(names_of(self@).subrange(0, i + 1) =~= ns.push(self@[i as int].name@));
            }
            i = i + 1;
        }
        proof {
            assert(names_of(self@).subrange(0, i as int) =~= names_of(self@));
        }
        r
    }
}

} // verus!
