//! Error reporting for the interpreter and the lowering pass.
use vstd::prelude::*;
use vstd::string::StringExecFns;

verus! {

/// The classes of failure the interpreter and the lowering pass can report.
#[derive(Clone, Copy, Debug, PartialEq, Eq, Structural)]
pub enum ErrorKind {
    /// An unparseable numeric body or a stray character in a value string.
    BadLiteral,
    /// A value does not fit the requested numeric width.
    NumericOverflow,
    /// A recognised prefix whose collaborator is reserved or not injected.
    Unsupported,
    /// The injected file loader reported a failure.
    External,
    /// Two distinct raw keys lower to the same canonical key.
    DuplicateEntry,
}

/// One step of a path into the scenario document.
#[derive(Debug)]
pub enum PathSeg {
    /// A named field or map key.
    Field(String),
    /// An index into a list.
    Index(usize),
}

impl PathSeg {
    /// A named field, for error paths.
    pub fn field(name: &str) -> (r: PathSeg)
        ensures
            r matches PathSeg::Field(s) && s@ == name@,
    {
        PathSeg::Field(name.to_owned())
    }
}

/// One decimal digit as a character.
pub open spec fn digit_char(d: nat) -> char {
    ((0x30 + d) as u32) as char
}

/// The decimal notation of a number, as characters.
pub open spec fn dec_chars(n: nat) -> Seq<char>
    decreases n,
{
    if n < 10 {
        seq![digit_char(n)]
    } else {
        dec_chars(n / 10).push(digit_char(n % 10))
    }
}

/// Digits collected least significant first, read back most significant
/// first.
pub open spec fn rev_digit_chars(ds: Seq<usize>) -> Seq<char>
    decreases ds.len(),
{
    if ds.len() == 0 {
        Seq::empty()
    } else {
        seq![digit_char(ds.last() as nat)] + rev_digit_chars(ds.drop_last())
    }
}

/// How one path step reads: a leading dot before every field but the first,
/// and brackets around an index.
pub open spec fn seg_chars(seg: PathSeg, first: bool) -> Seq<char> {
    match seg {
        PathSeg::Field(s) => if first {
            s@
        } else {
            seq!['.'] + s@
        },
        PathSeg::Index(i) => seq!['['] + dec_chars(i as nat) + seq![']'],
    }
}

/// How a path reads from step `i` on.
pub open spec fn path_chars(path: Seq<PathSeg>, i: int) -> Seq<char>
    decreases path.len() - i,
{
    if i < 0 || i >= path.len() {
        Seq::empty()
    } else {
        seg_chars(path[i], i == 0) + path_chars(path, i + 1)
    }
}

/// One decimal digit as a string slice.
fn digit_str(d: usize) -> (r: &'static str)
    requires
        d < 10,
    ensures
        r@ == seq![digit_char(d as nat)],
{
    let r: &'static str = if d == 0 {
        "0"
    } else if d == 1 {
        "1"
    } else if d == 2 {
        "2"
    } else if d == 3 {
        "3"
    } else if d == 4 {
        "4"
    } else if d == 5 {
        "5"
    } else if d == 6 {
        "6"
    } else if d == 7 {
        "7"
    } else if d == 8 {
        "8"
    } else {
        "9"
    };
    proof {
        reveal_strlit("0");
        reveal_strlit("1");
        reveal_strlit("2");
        reveal_strlit("3");
        reveal_strlit("4");
        reveal_strlit("5");
        reveal_strlit("6");
        reveal_strlit("7");
        reveal_strlit("8");
        reveal_strlit("9");
        assert('0' as u32 == 48 && '1' as u32 == 49 && '2' as u32 == 50 && '3' as u32 == 51
            && '4' as u32 == 52 && '5' as u32 == 53 && '6' as u32 == 54 && '7' as u32 == 55
            && '8' as u32 == 56 && '9' as u32 == 57);
        assert(r@ =~= seq![digit_char(d as nat)]) by {
            vstd::utf8::char_u32_cast('0', 48);
            vstd::utf8::char_u32_cast('1', 49);
            vstd::utf8::char_u32_cast('2', 50);
            vstd::utf8::char_u32_cast('3', 51);
            vstd::utf8::char_u32_cast('4', 52);
            vstd::utf8::char_u32_cast('5', 53);
            vstd::utf8::char_u32_cast('6', 54);
            vstd::utf8::char_u32_cast('7', 55);
            vstd::utf8::char_u32_cast('8', 56);
            vstd::utf8::char_u32_cast('9', 57);
        }
    }
    r
}

proof fn lemma_rev_digit_chars_front(ds: Seq<usize>)
    requires
        ds.len() > 0,
    ensures
        rev_digit_chars(ds) == rev_digit_chars(ds.drop_first()) + seq![
            digit_char(ds.first() as nat),
        ],
    decreases ds.len(),
{
    if ds.len() == 1 {
        assert(ds.drop_first() =~= Seq::<usize>::empty());
        assert(ds.drop_last() =~= Seq::<usize>::empty());
        assert(rev_digit_chars(Seq::<usize>::empty()) =~= Seq::<char>::empty());
        assert(ds.last() == ds.first());
        assert(rev_digit_chars(ds.drop_first()) + seq![digit_char(ds.first() as nat)] =~= seq![
            digit_char(ds.last() as nat),
        ] + rev_digit_chars(ds.drop_last()));
    } else {
        lemma_rev_digit_chars_front(ds.drop_last());
        assert(ds.drop_last().first() == ds.first());
        assert(ds.drop_last().drop_first() =~= ds.drop_first().drop_last());
        assert(ds.drop_first().last() == ds.last());
        assert(rev_digit_chars(ds.drop_first()) =~= seq![digit_char(ds.last() as nat)]
            + rev_digit_chars(ds.drop_first().drop_last()));
        assert(rev_digit_chars(ds) =~= rev_digit_chars(ds.drop_first()) + seq![
            digit_char(ds.first() as nat),
        ]);
    }
}

/// The decimal notation of a number, as a string.
#[verifier::loop_isolation(false)]
fn usize_to_string(n: usize) -> (r: String)
    ensures
        r@ == dec_chars(n as nat),
{
    let mut digits: Vec<usize> = Vec::new();
    let mut m = n;
    digits.push(m % 10);
    proof {
        assert(digits@.drop_last() =~= Seq::<usize>::empty());
        assert(rev_digit_chars(Seq::<usize>::empty()) =~= Seq::<char>::empty());
        vstd::arithmetic::div_mod::lemma_fundamental_div_mod(n as int, 10);
        if n < 10 {
            vstd::arithmetic::div_mod::lemma_small_mod(n as nat, 10);
            assert(rev_digit_chars(digits@) =~= dec_chars(n as nat));
        } else {
            assert(rev_digit_chars(digits@) =~= seq![digit_char((n % 10) as nat)]);
            assert(dec_chars(n as nat) =~= dec_chars((n / 10) as nat) + rev_digit_chars(digits@));
        }
    }
    m = m / 10;
    while m > 0
        invariant
            digits@.len() >= 1,
            forall|j: int| 0 <= j < digits@.len() ==> #[trigger] digits@[j] < 10,
            m == 0 ==> dec_chars(n as nat) == rev_digit_chars(digits@),
            m > 0 ==> dec_chars(n as nat) == dec_chars(m as nat) + rev_digit_chars(digits@),
        decreases m,
    {
        let ghost old_digits = digits@;
        let ghost old_m = m as nat;
        digits.push(m % 10);
        proof {
            assert(digits@.drop_last() =~= old_digits);
            assert(digits@.last() == (m % 10) as usize);
            vstd::arithmetic::div_mod::lemma_fundamental_div_mod(m as int, 10);
            assert(rev_digit_chars(digits@) =~= seq![digit_char((old_m % 10) as nat)]
                + rev_digit_chars(old_digits));
            if old_m >= 10 {
                assert(dec_chars(old_m) =~= dec_chars(old_m / 10) + seq![
                    digit_char(old_m % 10),
                ]);
                assert(dec_chars(old_m / 10) + rev_digit_chars(digits@) =~= dec_chars(old_m)
                    + rev_digit_chars(old_digits));
            } else {
                vstd::arithmetic::div_mod::lemma_small_mod(old_m, 10);
                assert(rev_digit_chars(digits@) =~= dec_chars(old_m) + rev_digit_chars(
                    old_digits,
                ));
            }
        }
        m = m / 10;
    }
    let mut r = String::new();
    let mut i = digits.len();
    proof {
        assert(digits@.skip(digits@.len() as int) =~= Seq::<usize>::empty());
    }
    while i > 0
        invariant
            i <= digits@.len(),
            r@ == rev_digit_chars(digits@.skip(i as int)),
        decreases i,
    {
        i = i - 1;
        let d = digits[i];
        let ghost before = r@;
        r.append(digit_str(d));
        proof {
            assert(digits@.skip(i as int).drop_first() =~= digits@.skip(i + 1));
            assert(digits@.skip(i as int).first() == digits@[i as int]);
            lemma_rev_digit_chars_front(digits@.skip(i as int));
            assert(r@ =~= rev_digit_chars(digits@.skip(i as int)));
        }
    }
    proof {
        assert(digits@.skip(0) =~= digits@);
    }
    r
}

/// A failure, with the path from the document root down to the value that
/// caused it.
#[derive(Debug)]
pub struct InterpretError {
    pub kind: ErrorKind,
    pub path: Vec<PathSeg>,
}

impl InterpretError {
    /// A fresh error at the document root.
    pub fn new(kind: ErrorKind) -> (r: Self)
        ensures
            r.kind == kind,
            r.path@.len() == 0,
    {
        InterpretError { kind, path: Vec::new() }
    }

    /// The same error, reported one level further from the root: the new
    /// step stands in front of the path already gathered.
    pub fn within(self, seg: PathSeg) -> (r: Self)
        ensures
            r.kind == self.kind,
            r.path@ == seq![seg] + self.path@,
    {
        let ghost old_path = self.path@;
        let mut path = self.path;
        path.insert(0, seg);
        proof {
            assert(path@ =~= seq![seg] + old_path);
        }
        InterpretError { kind: self.kind, path }
    }

    /// The path into the document, in the usual dotted-and-bracketed
    /// notation, such as `steps[3].tx.arguments[0]`.
    #[verifier::loop_isolation(false)]
    pub fn path_string(&self) -> (r: String)
        ensures
            r@ == path_chars(self.path@, 0),
    {
        let mut r = String::new();
        let mut i: usize = 0;
        let ghost path = self.path@;
        proof {
            assert(path_chars(path, path.len() as int) =~= Seq::<char>::empty());
        }
        while i < self.path.len()
            invariant
                i <= path.len(),
                path == self.path@,
                r@ + path_chars(path, i as int) == path_chars(path, 0),
            decreases path.len() - i,
        {
            let ghost before = r@;
            match &self.path[i] {
                PathSeg::Field(s) => {
                    if i > 0 {
                        r.append(".");
                        proof {
                            reveal_strlit(".");
                        }
                    }
                    r.append(s.as_str());
                },
                PathSeg::Index(ix) => {
                    r.append("[");
                    let num = usize_to_string(*ix);
                    r.append(num.as_str());
                    r.append("]");
                    proof {
                        reveal_strlit("[");
                        reveal_strlit("]");
                    }
                },
            }
            proof {
                assert(r@ =~= before + seg_chars(path[i as int], i == 0));
                assert(r@ + path_chars(path, i + 1) =~= before + path_chars(path, i as int));
            }
            i += 1;
        }
        proof {
            assert(r@ + path_chars(path, path.len() as int) =~= r@);
        }
        r
    }
}

} // verus!
