//! The byte-doubling transform for the interpret-as-command byte: literal
//! 0xFF is indistinguishable from a command marker on the wire, so it is sent
//! doubled and collapsed again on receipt.
use vstd::prelude::*;
use vstd::assert_seqs_equal;

verus! {

/// What escaping a byte run means: every 0xFF byte is doubled, every other
/// byte is carried through.
pub open spec fn escape(s: Seq<u8>) -> Seq<u8>
    decreases s.len(),
{
    if s.len() == 0 {
        Seq::empty()
    } else if s[0] == 255 {
        seq![255u8, 255u8] + escape(s.skip(1))
    } else {
        seq![s[0]] + escape(s.skip(1))
    }
}

/// What unescaping means, scanning left to right: once a 0xFF is seen it is
/// kept and the byte after it (whatever it is) is never re-examined; a lone
/// trailing 0xFF is kept as well.
pub open spec fn unescape(s: Seq<u8>) -> Seq<u8>
    decreases s.len(),
{
    if s.len() == 0 {
        Seq::empty()
    } else if s[0] == 255 {
        if s.len() == 1 {
            seq![255u8]
        } else {
            seq![255u8] + unescape(s.skip(2))
        }
    } else {
        seq![s[0]] + unescape(s.skip(1))
    }
}

/// Dropping `a` elements and then `b` more is dropping `a + b` at once.
pub proof fn lemma_skip_skip(s: Seq<u8>, a: int, b: int)
    requires
        0 <= a,
        0 <= b,
        a + b <= s.len(),
    ensures
        s.skip(a).skip(b) == s.skip(a + b),
{
    assert_seqs_equal!(s.skip(a).skip(b) == s.skip(a + b));
}

/// Escaping one byte doubles it or keeps it.
pub proof fn lemma_escape_singleton(x: u8)
    ensures
        x == 255 ==> escape(seq![x]) == seq![255u8, 255u8],
        x != 255 ==> escape(seq![x]) == seq![x],
{
    assert(seq![x].skip(1) =~= Seq::<u8>::empty());
    assert(escape(Seq::<u8>::empty()) == Seq::<u8>::empty());
    if x == 255 {
        assert(escape(seq![x]) =~= seq![255u8, 255u8]);
    } else {
        assert(escape(seq![x]) =~= seq![x]);
    }
}

/// Escaping maps each byte independently, so it distributes over
/// concatenation.
pub proof fn lemma_escape_distributes(a: Seq<u8>, b: Seq<u8>)
    ensures
        escape(a + b) == escape(a) + escape(b),
    decreases a.len(),
{
    if a.len() == 0 {
        assert(a + b =~= b);
        assert(escape(a) + escape(b) =~= escape(b));
    } else {
        lemma_escape_distributes(a.skip(1), b);
        assert((a + b).skip(1) =~= a.skip(1) + b);
        if a[0] == 255 {
            assert(escape(a + b) =~= seq![255u8, 255u8] + (escape(a.skip(1)) + escape(b)));
            assert(escape(a) + escape(b) =~= seq![255u8, 255u8] + (escape(a.skip(1)) + escape(b)));
        } else {
            assert(escape(a + b) =~= seq![a[0]] + (escape(a.skip(1)) + escape(b)));
            assert(escape(a) + escape(b) =~= seq![a[0]] + (escape(a.skip(1)) + escape(b)));
        }
    }
}

/// Escaping and then unescaping any byte run, with 0xFF anywhere in it, gives
/// the run back.
pub proof fn lemma_unescape_escape(s: Seq<u8>)
    ensures
        unescape(escape(s)) == s,
    decreases s.len(),
{
    if s.len() == 0 {
        assert(unescape(escape(s)) =~= s);
    } else {
        lemma_unescape_escape(s.skip(1));
        if s[0] == 255 {
            assert(escape(s).skip(2) =~= escape(s.skip(1)));
            if escape(s).len() == 1 {
                assert(escape(s) =~= seq![255u8, 255u8] + escape(s.skip(1)));
                assert(false);
            }
            assert(unescape(escape(s)) =~= seq![255u8] + s.skip(1));
            assert(seq![255u8] + s.skip(1) =~= s);
        } else {
            assert(escape(s).skip(1) =~= escape(s.skip(1)));
            assert(unescape(escape(s)) =~= seq![s[0]] + s.skip(1));
            assert(seq![s[0]] + s.skip(1) =~= s);
        }
    }
}

/// The escaping capabilities of a byte buffer.
pub trait Escape: View<V = Seq<u8>> {
    /// Append this buffer to `dst` with every 0xFF doubled.
    fn escape_to(&self, dst: &mut Vec<u8>)
        ensures
            final(dst)@ == old(dst)@ + escape(self@),
    ;

    /// Append this buffer to `dst` with every 0xFF pair collapsed.
    fn unescape_to(&self, dst: &mut Vec<u8>)
        ensures
            final(dst)@ == old(dst)@ + unescape(self@),
    ;

    /// Collapse every 0xFF pair in this buffer, shifting surviving bytes left
    /// and truncating by the count removed.
    fn unescape_inplace(&mut self)
        ensures
            final(self)@ == unescape(old(self)@),
    ;
}

impl Escape for Vec<u8> {
    fn escape_to(&self, dst: &mut Vec<u8>) {
        let n = self.len();
        let mut i: usize = 0;
        proof {
            assert(self@.take(0) =~= Seq::<u8>::empty());
            assert(escape(Seq::<u8>::empty()) == Seq::<u8>::empty());
            assert(dst@ =~= old(dst)@ + escape(self@.take(0)));
        }
        while i < n
            invariant
                i <= n,
                n == self@.len(),
                dst@ == old(dst)@ + escape(self@.take(i as int)),
            decreases n - i,
        {
            let b = self[i];
            if b == 255 {
                dst.push(255);
            }
            dst.push(b);
            proof {
                assert(self@.take(i + 1) =~= self@.take(i as int) + seq![self@[i as int]]);
                lemma_escape_distributes(self@.take(i as int), seq![self@[i as int]]);
                lemma_escape_singleton(self@[i as int]);
                assert(dst@ =~= old(dst)@ + escape(self@.take(i + 1)));
            }
            i += 1;
        }
        proof {
            assert(self@.take(n as int) =~= self@);
        }
    }

    fn unescape_to(&self, dst: &mut Vec<u8>) {
        let n = self.len();
        let mut i: usize = 0;
        proof {
            assert(self@.skip(0) =~= self@);
        }
        while i < n
            invariant
                i <= n,
                n == self@.len(),
                old(dst)@ + unescape(self@) == dst@ + unescape(self@.skip(i as int)),
            decreases n - i,
        {
            let b = self[i];
            proof {
                assert(self@.skip(i as int)[0] == self@[i as int]);
            }
            if b == 255 {
                dst.push(255);
                proof {
                    if n - i >= 2 {
                        lemma_skip_skip(self@, i as int, 2);
                        assert(unescape(self@.skip(i as int)) =~= seq![255u8] + unescape(
                            self@.skip(i + 2),
                        ));
                    } else {
                        assert(self@.skip(i as int).len() == 1);
                        assert(unescape(self@.skip(i as int)) =~= seq![255u8]);
                        assert(self@.skip(n as int) =~= Seq::<u8>::empty());
                    }
                }
                if n - i >= 2 {
                    i += 2;
                } else {
                    i = n;
                }
            } else {
                dst.push(b);
                proof {
                    lemma_skip_skip(self@, i as int, 1);
                    assert(unescape(self@.skip(i as int)) =~= seq![self@[i as int]] + unescape(
                        self@.skip(i + 1),
                    ));
                }
                i += 1;
            }
        }
        proof {
            assert(self@.skip(n as int) =~= Seq::<u8>::empty());
            assert(unescape(Seq::<u8>::empty()) == Seq::<u8>::empty());
            assert(dst@ =~= old(dst)@ + unescape(self@));
        }
    }

    fn unescape_inplace(&mut self) {
        let n = self.len();
        let mut i: usize = 0;
        let mut j: usize = 0;
        proof {
            assert(old(self)@.skip(0) =~= old(self)@);
            assert(self@.subrange(0, 0) =~= Seq::<u8>::empty());
        }
        while i < n
            invariant
                j <= i,
                i <= n,
                n == self@.len(),
                n == old(self)@.len(),
                forall|k: int| j <= k < n ==> self@[k] == old(self)@[k],
                unescape(old(self)@) == self@.subrange(0, j as int) + unescape(
                    old(self)@.skip(i as int),
                ),
            decreases n - i,
        {
            let b = self[i];
            proof {
                assert(old(self)@.skip(i as int)[0] == old(self)@[i as int]);
            }
            if i != j {
                self.set(j, b);
            }
            proof {
                assert(self@.subrange(0, j + 1) =~= self@.subrange(0, j as int) + seq![
                    old(self)@[i as int],
                ]);
            }
            j += 1;
            if b == 255 {
                proof {
                    if n - i >= 2 {
                        lemma_skip_skip(old(self)@, i as int, 2);
                        assert(unescape(old(self)@.skip(i as int)) =~= seq![255u8] + unescape(
                            old(self)@.skip(i + 2),
                        ));
                    } else {
                        assert(old(self)@.skip(i as int).len() == 1);
                        assert(unescape(old(self)@.skip(i as int)) =~= seq![255u8]);
                        assert(old(self)@.skip(n as int) =~= Seq::<u8>::empty());
                        assert(unescape(Seq::<u8>::empty()) == Seq::<u8>::empty());
                    }
                    assert(unescape(old(self)@) =~= self@.subrange(0, j as int) + unescape(
                        old(self)@.skip(if n - i >= 2 { i + 2 } else { n as int }),
                    ));
                }
                if n - i >= 2 {
                    i += 2;
                } else {
                    i = n;
                }
            } else {
                proof {
                    lemma_skip_skip(old(self)@, i as int, 1);
                    assert(unescape(old(self)@.skip(i as int)) =~= seq![old(self)@[i as int]]
                        + unescape(old(self)@.skip(i + 1)));
                    assert(unescape(old(self)@) =~= self@.subrange(0, j as int) + unescape(
                        old(self)@.skip(i + 1),
                    ));
                }
                i += 1;
            }
        }
        proof {
            assert(old(self)@.skip(n as int) =~= Seq::<u8>::empty());
            assert(unescape(Seq::<u8>::empty()) == Seq::<u8>::empty());
            assert(unescape(old(self)@) =~= self@.subrange(0, j as int));
        }
        self.truncate(j);
        proof {
            assert(final(self)@ =~= unescape(old(self)@));
        }
    }
}


/// How many source bytes are wholly represented in the first `k` bytes of
/// the escaped form.
pub open spec fn esc_count(d: Seq<u8>, k: int) -> int
    decreases d.len(),
{
    if d.len() == 0 || k <= 0 {
        0
    } else if d[0] == 255 {
        if k >= 2 {
            1 + esc_count(d.skip(1), k - 2)
        } else {
            0
        }
    } else {
        1 + esc_count(d.skip(1), k - 1)
    }
}

/// Whether a cut after `k` escaped bytes falls between the two halves of a
/// doubled marker.
pub open spec fn esc_half(d: Seq<u8>, k: int) -> bool
    decreases d.len(),
{
    if d.len() == 0 || k <= 0 {
        false
    } else if d[0] == 255 {
        if k == 1 {
            true
        } else {
            esc_half(d.skip(1), k - 2)
        }
    } else {
        esc_half(d.skip(1), k - 1)
    }
}

/// Cutting the escaped form of a run after `k` bytes leaves the escaped
/// form of a source prefix, plus half a doubled marker when the cut falls
/// inside one; the remainder is the escaped form of the matching source
/// suffix.
pub proof fn lemma_escape_split(d: Seq<u8>, k: int)
    requires
        0 <= k <= escape(d).len(),
    ensures
        ({
            let j = esc_count(d, k);
            &&& 0 <= j <= d.len()
            &&& (!esc_half(d, k) ==> escape(d).take(k) == escape(d.take(j)) && escape(d).skip(k)
                == escape(d.skip(j)))
            &&& (esc_half(d, k) ==> j < d.len() && d[j] == 255 && escape(d).take(k) == escape(
                d.take(j),
            ) + seq![255u8] && escape(d).skip(k) == seq![255u8] + escape(d.skip(j + 1)))
        }),
    decreases d.len(),
{
    let j = esc_count(d, k);
    if d.len() == 0 {
        assert(escape(d).take(k) =~= escape(d.take(0)));
        assert(escape(d).skip(k) =~= escape(d.skip(0)));
    } else if k == 0 {
        assert(d.take(0) =~= Seq::<u8>::empty());
        assert(escape(d).take(0) =~= escape(d.take(0)));
        assert(d.skip(0) =~= d);
        assert(escape(d).skip(0) =~= escape(d.skip(0)));
    } else if d[0] == 255 {
        assert(escape(d) == seq![255u8, 255u8] + escape(d.skip(1)));
        if k == 1 {
            assert(j == 0);
            assert(esc_half(d, k));
            assert(d.take(0) =~= Seq::<u8>::empty());
            assert(escape(d).take(1) =~= escape(d.take(0)) + seq![255u8]);
            assert(escape(d).skip(1) =~= seq![255u8] + escape(d.skip(1)));
        } else {
            lemma_escape_split(d.skip(1), k - 2);
            let j2 = esc_count(d.skip(1), k - 2);
            assert(j == 1 + j2);
            assert(d.take(j).skip(1) =~= d.skip(1).take(j2));
            assert(d.take(j)[0] == 255);
            assert(escape(d.take(j)) == seq![255u8, 255u8] + escape(d.take(j).skip(1)));
            if !esc_half(d, k) {
                assert(escape(d).take(k) =~= seq![255u8, 255u8] + escape(d.skip(1)).take(k - 2));
                assert(escape(d).take(k) =~= escape(d.take(j)));
                assert(escape(d).skip(k) =~= escape(d.skip(1)).skip(k - 2));
                assert(d.skip(1).skip(j2) =~= d.skip(j));
                assert(escape(d).skip(k) =~= escape(d.skip(j)));
            } else {
                assert(escape(d).take(k) =~= seq![255u8, 255u8] + escape(d.skip(1)).take(k - 2));
                assert(escape(d).take(k) =~= escape(d.take(j)) + seq![255u8]);
                assert(d.skip(1)[j2] == d[j]);
                assert(escape(d).skip(k) =~= escape(d.skip(1)).skip(k - 2));
                assert(d.skip(1).skip(j2 + 1) =~= d.skip(j + 1));
                assert(escape(d).skip(k) =~= seq![255u8] + escape(d.skip(j + 1)));
            }
        }
    } else {
        assert(escape(d) == seq![d[0]] + escape(d.skip(1)));
        lemma_escape_split(d.skip(1), k - 1);
        let j2 = esc_count(d.skip(1), k - 1);
        assert(j == 1 + j2);
        assert(d.take(j).skip(1) =~= d.skip(1).take(j2));
        assert(d.take(j)[0] == d[0]);
        assert(escape(d.take(j)) == seq![d[0]] + escape(d.take(j).skip(1)));
        if !esc_half(d, k) {
            assert(escape(d).take(k) =~= seq![d[0]] + escape(d.skip(1)).take(k - 1));
            assert(escape(d).take(k) =~= escape(d.take(j)));
            assert(escape(d).skip(k) =~= escape(d.skip(1)).skip(k - 1));
            assert(d.skip(1).skip(j2) =~= d.skip(j));
            assert(escape(d).skip(k) =~= escape(d.skip(j)));
        } else {
            assert(escape(d).take(k) =~= seq![d[0]] + escape(d.skip(1)).take(k - 1));
            assert(escape(d).take(k) =~= escape(d.take(j)) + seq![255u8]);
            assert(d.skip(1)[j2] == d[j]);
            assert(escape(d).skip(k) =~= escape(d.skip(1)).skip(k - 1));
            assert(d.skip(1).skip(j2 + 1) =~= d.skip(j + 1));
            assert(escape(d).skip(k) =~= seq![255u8] + escape(d.skip(j + 1)));
        }
    }
}

} // verus!
