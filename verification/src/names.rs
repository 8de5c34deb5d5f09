//! Ordered sets of names.
use vstd::prelude::*;
use crate::text;

verus! {

/// The order of texts by their characters, which is that of their UTF-8 bytes.
pub open spec fn before(a: Seq<char>, b: Seq<char>) -> bool
    decreases a.len(),
{
    if b.len() == 0 {
        false
    } else if a.len() == 0 {
        true
    } else if a[0] == b[0] {
        before(a.drop_first(), b.drop_first())
    } else {
        a[0] < b[0]
    }
}

/// Every name stands before all that follow it, so none occurs twice.
pub open spec fn ascending(names: Seq<Seq<char>>) -> bool {
    forall|i: int, j: int| 0 <= i < j < names.len() ==> before(#[trigger] names[i], #[trigger] names[j])
}

pub proof fn lemma_before_irreflexive(a: Seq<char>)
    ensures
        !before(a, a),
    decreases a.len(),
{
    if a.len() > 0 {
        lemma_before_irreflexive(a.drop_first());
    }
}

pub proof fn lemma_before_transitive(a: Seq<char>, b: Seq<char>, c: Seq<char>)
    requires
        before(a, b),
        before(b, c),
    ensures
        before(a, c),
    decreases a.len(),
{
    if a.len() > 0 && a[0] == b[0] && b[0] == c[0] {
        lemma_before_transitive(a.drop_first(), b.drop_first(), c.drop_first());
    }
}

pub proof fn lemma_before_total(a: Seq<char>, b: Seq<char>)
    ensures
        a == b || before(a, b) || before(b, a),
    decreases a.len(),
{
    if a.len() == 0 && b.len() == 0 {
        assert(a =~= b);
    } else if a.len() > 0 && b.len() > 0 && a[0] == b[0] {
        lemma_before_total(a.drop_first(), b.drop_first());
        if a.drop_first() == b.drop_first() {
            assert(a =~= seq![a[0]] + a.drop_first());
            assert(b =~= seq![b[0]] + b.drop_first());
        }
    }
}

/// Two ascending lists with the same names are the same list.
pub proof fn law_ascending_lists_are_unique(a: Seq<Seq<char>>, b: Seq<Seq<char>>)
    requires
        ascending(a),
        ascending(b),
        a.to_set() == b.to_set(),
    ensures
        a == b,
    decreases a.len(),
{
    if a.len() == 0 {
        if b.len() > 0 {
            assert(b.to_set().contains(b[0]));
            assert(a.to_set().contains(b[0]));
        }
        assert(a =~= b);
    } else {
        assert(a.to_set().contains(a[0]));
        assert(b.to_set().contains(a[0]));
        let i = choose|i: int| 0 <= i < b.len() && b[i] == a[0];
        assert(b.to_set().contains(b[0]));
        assert(a.to_set().contains(b[0]));
        let j = choose|j: int| 0 <= j < a.len() && a[j] == b[0];
        if i > 0 && j > 0 {
            lemma_before_transitive(a[0], a[j], b[i]);
            lemma_before_irreflexive(a[0]);
        }
        assert(a[0] == b[0]);
        let ra = a.drop_first();
        let rb = b.drop_first();
        assert forall|x: int, y: int| 0 <= x < y < ra.len() implies before(
            #[trigger] ra[x],
            #[trigger] ra[y],
        ) by {
            assert(ra[x] == a[x + 1] && ra[y] == a[y + 1]);
        }
        assert forall|x: int, y: int| 0 <= x < y < rb.len() implies before(
            #[trigger] rb[x],
            #[trigger] rb[y],
        ) by {
            assert(rb[x] == b[x + 1] && rb[y] == b[y + 1]);
        }
        assert forall|n: Seq<char>| ra.to_set().contains(n) == rb.to_set().contains(n) by {
            if ra.to_set().contains(n) {
                let k = choose|k: int| 0 <= k < ra.len() && ra[k] == n;
                assert(a[k + 1] == n);
                assert(before(a[0], a[k + 1]));
                lemma_before_irreflexive(n);
                assert(a.to_set().contains(n));
                assert(b.to_set().contains(n));
                let m = choose|m: int| 0 <= m < b.len() && b[m] == n;
                assert(m > 0);
                assert(rb[m - 1] == n);
            }
            if rb.to_set().contains(n) {
                let k = choose|k: int| 0 <= k < rb.len() && rb[k] == n;
                assert(b[k + 1] == n);
                assert(before(b[0], b[k + 1]));
                lemma_before_irreflexive(n);
                assert(b.to_set().contains(n));
                assert(a.to_set().contains(n));
                let m = choose|m: int| 0 <= m < a.len() && a[m] == n;
                assert(m > 0);
                assert(ra[m - 1] == n);
            }
        }
        assert(ra.to_set() =~= rb.to_set());
        law_ascending_lists_are_unique(ra, rb);
        assert(a =~= seq![a[0]] + ra);
        assert(b =~= seq![b[0]] + rb);
    }
}

fn precedes(a: &str, b: &str) -> (r: bool)
    ensures
        r == before(a@, b@),
{
    let x = text::chars_of(a);
    let y = text::chars_of(b);
    let mut i: usize = 0;
    assert(a@.skip(0) =~= a@);
    assert(b@.skip(0) =~= b@);
    while i < x.len() && i < y.len() && x[i] == y[i]
        invariant
            x@ == a@,
            y@ == b@,
            i <= x@.len(),
            i <= y@.len(),
            before(a@, b@) == before(a@.skip(i as int), b@.skip(i as int)),
        decreases x@.len() - i,
    {
        assert(a@.skip(i as int).drop_first() =~= a@.skip(i + 1));
        assert(b@.skip(i as int).drop_first() =~= b@.skip(i + 1));
        i = i + 1;
    }
    if i == y.len() {
        false
    } else if i == x.len() {
        true
    } else {
        x[i] < y[i]
    }
}

/// A set of names, kept in ascending order.
#[derive(Debug)]
pub struct NameSet {
    names: Vec<String>,
}

impl View for NameSet {
    type V = Set<Seq<char>>;

    closed spec fn view(&self) -> Set<Seq<char>> {
        text::views(self.names@).to_set()
    }
}

impl NameSet {
    #[verifier::type_invariant]
    spec fn ordered(self) -> bool {
        ascending(text::views(self.names@))
    }

    pub fn new() -> (r: Self)
        ensures
            r@ == Set::<Seq<char>>::empty(),
    {
        let r = NameSet { names: Vec::new() };
        assert(r@ =~= Set::<Seq<char>>::empty());
        r
    }

    /// Adds a name, unless it is there already.
    pub fn insert(&mut self, name: String)
        ensures
            final(self)@ == old(self)@.insert(name@),
    {
        proof {
            use_type_invariant(&*self);
        }
        let mut names: Vec<String> = Vec::new();
        core::mem::swap(&mut names, &mut self.names);
        let ghost was = text::views(names@);
        let mut i: usize = 0;
        while i < names.len() && precedes(names[i].as_str(), name.as_str())
            invariant
                i <= names@.len(),
                was == text::views(names@),
                forall|k: int| 0 <= k < i ==> before(#[trigger] was[k], name@),
            decreases names@.len() - i,
        {
            i = i + 1;
        }
        if i < names.len() && text::same(names[i].as_str(), name.as_str()) {
            proof {
                assert(was[i as int] == name@);
                assert(was.to_set().contains(name@));
                assert(was.to_set().insert(name@) =~= was.to_set());
            }
            self.names = names;
            return;
        }
        let ghost kept = name@;
        names.insert(i, name);
        proof {
            let now = text::views(names@);
            assert(now =~= was.insert(i as int, kept));
            if i < was.len() {
                lemma_before_total(was[i as int], kept);
                assert forall|k: int| i <= k < was.len() implies before(kept, #[trigger] was[k]) by {
                    if k > i {
                        lemma_before_transitive(kept, was[i as int], was[k]);
                    }
                }
            }
            assert forall|x: int, y: int| 0 <= x < y < now.len() implies before(
                #[trigger] now[x],
                #[trigger] now[y],
            ) by {
                if x < i && y > i {
                    assert(now[y] == was[y - 1]);
                } else if x > i {
                    assert(now[x] == was[x - 1] && now[y] == was[y - 1]);
                } else if x == i {
                    assert(now[y] == was[y - 1]);
                }
            }
            assert forall|n: Seq<char>| #[trigger]
                now.to_set().contains(n) == was.to_set().insert(kept).contains(n) by {
                if now.contains(n) {
                    let k = choose|k: int| 0 <= k < now.len() && now[k] == n;
                    if k < i {
                        assert(was[k] == n);
                    } else if k > i {
                        assert(was[k - 1] == n);
                    }
                }
                if was.contains(n) {
                    let k = choose|k: int| 0 <= k < was.len() && was[k] == n;
                    if k < i {
                        assert(now[k] == n);
                    } else {
                        assert(now[k + 1] == n);
                    }
                }
                assert(now[i as int] == kept);
            }
            assert(now.to_set() =~= was.to_set().insert(kept));
        }
        self.names = names;
    }

    pub fn is_empty(&self) -> (r: bool)
        ensures
            r == (self@ == Set::<Seq<char>>::empty()),
    {
        proof {
            if self.names@.len() == 0 {
                assert(self@ =~= Set::<Seq<char>>::empty());
            } else {
                assert(self@.contains(text::views(self.names@)[0]));
            }
        }
        self.names.len() == 0
    }

    /// The names in ascending order.
    pub fn into_vec(self) -> (r: Vec<String>)
        ensures
            ascending(text::views(r@)),
            text::views(r@).to_set() == self@,
    {
        proof {
            use_type_invariant(&self);
        }
        self.names
    }

    /// The names in ascending order.
    pub fn as_slice(&self) -> (r: &[String])
        ensures
            ascending(text::views(r@)),
            text::views(r@).to_set() == self@,
    {
        proof {
            use_type_invariant(self);
        }
        self.names.as_slice()
    }
}

impl Clone for NameSet {
    fn clone(&self) -> (r: Self)
        ensures
            r@ == self@,
    {
        proof {
            use_type_invariant(self);
        }
        let names = text::clone_all(&self.names);
        NameSet { names }
    }
}

/// Which of two names comes first: the one with the smaller character where they
/// first differ, or the one that the other goes on from. `n` is how far they are
/// the same.
pub proof fn law_first_difference_decides(a: Seq<char>, b: Seq<char>, n: int)
    requires
        0 <= n <= a.len(),
        n <= b.len(),
        a.take(n) == b.take(n),
        n < a.len() && n < b.len() ==> a[n] != b[n],
    ensures
        before(a, b) <==> n < b.len() && (n == a.len() || a[n] < b[n]),
    decreases n,
{
    if n > 0 {
        assert(a.take(n)[0] == a[0] && b.take(n)[0] == b[0]);
        assert(a.drop_first().take(n - 1) =~= a.take(n).drop_first());
        assert(b.drop_first().take(n - 1) =~= b.take(n).drop_first());
        law_first_difference_decides(a.drop_first(), b.drop_first(), n - 1);
    }
}

} // verus!
