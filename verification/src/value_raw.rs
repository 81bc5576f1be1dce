//! The raw scalar carrier: a JSON-shaped value tree, kept verbatim beside its
//! interpretation so a lowered scenario can be re-serialised losslessly.
use vstd::prelude::*;
use vstd::utf8::encode_utf8;

verus! {

/// A JSON-shaped value: a single string of the mini-language, an ordered
/// list, or an ordered map. Map entries are expected in lexicographic key
/// order (byte-wise over UTF-8), the canonical order of the document; only
/// map values contribute bytes to an interpretation, so a map's keys are
/// annotations for readers.
#[derive(Debug)]
pub enum ValueSubTree {
    Str(String),
    List(Vec<ValueSubTree>),
    Object(Vec<(String, ValueSubTree)>),
}

impl ValueSubTree {
    /// The root is the empty string: the mark of an absent field.
    pub open spec fn is_empty_str(self) -> bool {
        self matches ValueSubTree::Str(s) && s@.len() == 0
    }

    /// The root is the wildcard string `"*"`.
    pub open spec fn is_star_str(self) -> bool {
        self matches ValueSubTree::Str(s) && s@ == seq!['*']
    }
}

/// Strict lexicographic order on byte sequences.
pub open spec fn bytes_lt(a: Seq<u8>, b: Seq<u8>) -> bool
    decreases a.len(),
{
    if b.len() == 0 {
        false
    } else if a.len() == 0 {
        true
    } else if a[0] < b[0] {
        true
    } else if a[0] > b[0] {
        false
    } else {
        bytes_lt(a.drop_first(), b.drop_first())
    }
}

/// Strict lexicographic order on two byte slices.
fn bytes_lt_exec(a: &[u8], b: &[u8]) -> (r: bool)
    ensures
        r == bytes_lt(a@, b@),
{
    let mut i: usize = 0;
    proof {
        assert(a@.skip(0) =~= a@);
        assert(b@.skip(0) =~= b@);
    }
    while i < a.len() && i < b.len()
        invariant
            i <= a@.len(),
            i <= b@.len(),
            forall|j: int| 0 <= j < i ==> a@[j] == b@[j],
            bytes_lt(a@, b@) == bytes_lt(a@.skip(i as int), b@.skip(i as int)),
        decreases a@.len() - i,
    {
        proof {
            assert(a@.skip(i as int)[0] == a@[i as int]);
            assert(b@.skip(i as int)[0] == b@[i as int]);
            assert(a@.skip(i as int).drop_first() =~= a@.skip(i + 1));
            assert(b@.skip(i as int).drop_first() =~= b@.skip(i + 1));
        }
        if a[i] < b[i] {
            return true;
        }
        if a[i] > b[i] {
            return false;
        }
        i += 1;
    }
    a.len() < b.len()
}

/// A map's keys strictly increase, each against the next, in byte-wise
/// UTF-8 order.
pub open spec fn entries_key_sorted(m: Seq<(String, ValueSubTree)>) -> bool {
    forall|i: int|
        0 <= i < m.len() - 1 ==> bytes_lt(
            encode_utf8((#[trigger] m[i]).0@),
            encode_utf8(m[i + 1].0@),
        )
}

/// Strict lexicographic order never relates a sequence to itself.
proof fn lemma_bytes_lt_irreflexive(a: Seq<u8>)
    ensures
        !bytes_lt(a, a),
    decreases a.len(),
{
    if a.len() > 0 {
        lemma_bytes_lt_irreflexive(a.drop_first());
    }
}

/// Strict lexicographic order is transitive.
proof fn lemma_bytes_lt_transitive(a: Seq<u8>, b: Seq<u8>, c: Seq<u8>)
    requires
        bytes_lt(a, b),
        bytes_lt(b, c),
    ensures
        bytes_lt(a, c),
    decreases a.len(),
{
    if a.len() > 0 {
        if a[0] == b[0] && b[0] == c[0] {
            lemma_bytes_lt_transitive(a.drop_first(), b.drop_first(), c.drop_first());
        }
    }
}

/// Adjacent order gives order between any two positions.
proof fn lemma_entries_key_sorted_pairwise(m: Seq<(String, ValueSubTree)>, i: int, j: int)
    requires
        entries_key_sorted(m),
        0 <= i < j < m.len(),
    ensures
        bytes_lt(encode_utf8(m[i].0@), encode_utf8(m[j].0@)),
    decreases j - i,
{
    if j > i + 1 {
        lemma_entries_key_sorted_pairwise(m, i, j - 1);
        lemma_bytes_lt_transitive(
            encode_utf8(m[i].0@),
            encode_utf8(m[j - 1].0@),
            encode_utf8(m[j].0@),
        );
    }
}

/// Two key-sorted maps holding the same entries are the same sequence of
/// entries: the canonical order leaves no room for assembly order, so what
/// a well-formed map denotes is a pure function of its content.
pub proof fn lemma_key_sorted_entries_unique(
    a: Seq<(String, ValueSubTree)>,
    b: Seq<(String, ValueSubTree)>,
)
    requires
        entries_key_sorted(a),
        entries_key_sorted(b),
        forall|e: (String, ValueSubTree)| #[trigger] a.contains(e) <==> #[trigger] b.contains(e),
    ensures
        a == b,
    decreases a.len(),
{
    if a.len() == 0 {
        if b.len() > 0 {
            assert(b.contains(b[0]));
            assert(a.contains(b[0]));
            assert(false);
        }
        assert(a =~= b);
    } else {
        assert(a.contains(a[0]));
        assert(b.contains(a[0]));
        let i = choose|i: int| 0 <= i < b.len() && b[i] == a[0];
        assert(b.contains(b[0]));
        assert(a.contains(b[0]));
        let j = choose|j: int| 0 <= j < a.len() && a[j] == b[0];
        if i > 0 {
            lemma_entries_key_sorted_pairwise(b, 0, i);
            if j > 0 {
                lemma_entries_key_sorted_pairwise(a, 0, j);
                lemma_bytes_lt_transitive(
                    encode_utf8(a[0].0@),
                    encode_utf8(b[0].0@),
                    encode_utf8(a[0].0@),
                );
                lemma_bytes_lt_irreflexive(encode_utf8(a[0].0@));
                assert(false);
            } else {
                assert(b[i] == b[0]);
                lemma_bytes_lt_irreflexive(encode_utf8(b[0].0@));
                assert(false);
            }
        }
        assert(a[0] == b[0]);
        let at = a.drop_first();
        let bt = b.drop_first();
        assert(forall|k: int| 0 <= k < at.len() ==> #[trigger] at[k] == a[k + 1]);
        assert(forall|k: int| 0 <= k < bt.len() ==> #[trigger] bt[k] == b[k + 1]);
        assert(entries_key_sorted(at));
        assert(entries_key_sorted(bt));
        assert forall|e: (String, ValueSubTree)| #[trigger] at.contains(e) <==> #[trigger] bt
            .contains(e) by {
            if at.contains(e) {
                let k = choose|k: int| 0 <= k < at.len() && at[k] == e;
                assert(a[k + 1] == e);
                assert(a.contains(e));
                assert(b.contains(e));
                let l = choose|l: int| 0 <= l < b.len() && b[l] == e;
                assert(l > 0) by {
                    if l == 0 {
                        lemma_entries_key_sorted_pairwise(a, 0, k + 1);
                        lemma_bytes_lt_irreflexive(encode_utf8(a[0].0@));
                    }
                }
                assert(bt[l - 1] == e);
                assert(bt.contains(e));
            }
            if bt.contains(e) {
                let k = choose|k: int| 0 <= k < bt.len() && bt[k] == e;
                assert(b[k + 1] == e);
                assert(b.contains(e));
                assert(a.contains(e));
                let l = choose|l: int| 0 <= l < a.len() && a[l] == e;
                assert(l > 0) by {
                    if l == 0 {
                        lemma_entries_key_sorted_pairwise(b, 0, k + 1);
                        lemma_bytes_lt_irreflexive(encode_utf8(b[0].0@));
                    }
                }
                assert(at[l - 1] == e);
                assert(at.contains(e));
            }
        }
        lemma_key_sorted_entries_unique(at, bt);
        assert forall|k: int| 0 <= k < a.len() implies a[k] == b[k] by {
            if k > 0 {
                assert(at[k - 1] == a[k]);
                assert(bt[k - 1] == b[k]);
            }
        }
        assert(a =~= b);
    }
}

impl ValueSubTree {
    /// The canonical shape of a document tree: every map's keys strictly
    /// increase in byte-wise UTF-8 order, at every depth. Iteration in entry
    /// order is then independent of how the map was built.
    pub open spec fn well_formed(self) -> bool
        decreases self,
    {
        match self {
            ValueSubTree::Str(_) => true,
            ValueSubTree::List(l) => forall|i: int|
                0 <= i < l@.len() ==> (#[trigger] l@[i]).well_formed(),
            ValueSubTree::Object(m) => {
                &&& forall|i: int| 0 <= i < m@.len() ==> (#[trigger] m@[i]).1.well_formed()
                &&& entries_key_sorted(m@)
            },
        }
    }

    /// Decide canonical shape.
    #[verifier::loop_isolation(false)]
    pub fn is_well_formed(&self) -> (r: bool)
        ensures
            r == self.well_formed(),
        decreases *self,
    {
        match self {
            ValueSubTree::Str(_) => true,
            ValueSubTree::List(l) => {
                let mut i: usize = 0;
                while i < l.len()
                    invariant
                        i <= l@.len(),
                        forall|j: int| 0 <= j < i ==> (#[trigger] l@[j]).well_formed(),
                    decreases l@.len() - i,
                {
                    proof {
                        assert(decreases_to!(*l => l@));
                        assert(decreases_to!(l@ => l@[i as int]));
                    }
                    if !l[i].is_well_formed() {
                        return false;
                    }
                    i += 1;
                }
                true
            },
            ValueSubTree::Object(m) => {
                let mut i: usize = 0;
                while i < m.len()
                    invariant
                        i <= m@.len(),
                        forall|j: int| 0 <= j < i ==> (#[trigger] m@[j]).1.well_formed(),
                        forall|j: int|
                            0 <= j < i && j + 1 < m@.len() ==> bytes_lt(
                                encode_utf8((#[trigger] m@[j]).0@),
                                encode_utf8(m@[j + 1].0@),
                            ),
                    decreases m@.len() - i,
                {
                    proof {
                        assert(decreases_to!(*m => m@));
                        assert(decreases_to!(m@ => m@[i as int]));
                        assert(decreases_to!(m@[i as int] => m@[i as int].1));
                    }
                    if !m[i].1.is_well_formed() {
                        return false;
                    }
                    if i + 1 < m.len() {
                        if !bytes_lt_exec(m[i].0.as_str().as_bytes(), m[i + 1].0.as_str().as_bytes())
                        {
                            return false;
                        }
                    }
                    i += 1;
                }
                true
            },
        }
    }
}

} // verus!
