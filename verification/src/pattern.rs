//! The declared shape of a protocol: an ordered list of absorb, squeeze and
//! ratchet steps, and its canonical encoding as a domain separator.

use crate::errors::IOPatternError;
use vstd::bytes::*;
use vstd::prelude::*;
use vstd::string::*;
use vstd::utf8::*;

verus! {

/// One step of a pattern, as a mathematical value.
pub enum OpView {
    Absorb(nat, Seq<char>),
    Squeeze(nat, Seq<char>),
    Ratchet,
}

/// One step of a pattern.
#[derive(Debug)]
pub enum Op {
    /// Absorb this many units; the label names what is absorbed.
    Absorb(usize, String),
    /// Squeeze this many units; the label names the challenge.
    Squeeze(usize, String),
    /// Ratchet the sponge.
    Ratchet,
}

impl View for Op {
    type V = OpView;

    open spec fn view(&self) -> OpView {
        match *self {
            Op::Absorb(n, l) => OpView::Absorb(n as nat, l@),
            Op::Squeeze(n, l) => OpView::Squeeze(n as nat, l@),
            Op::Ratchet => OpView::Ratchet,
        }
    }
}

/// The byte that opens the encoding of an absorb step.
pub const ABSORB_MARK: u8 = 65;

/// The byte that opens the encoding of a squeeze step.
pub const SQUEEZE_MARK: u8 = 83;

/// The byte that encodes a ratchet step.
pub const RATCHET_MARK: u8 = 82;

/// A length as eight little-endian bytes.
pub open spec fn encode_len(n: nat) -> Seq<u8> {
    spec_u64_to_le_bytes(n as u64)
}

/// A text as its UTF-8 bytes behind their number.
pub open spec fn encode_text(s: Seq<char>) -> Seq<u8> {
    encode_len(encode_utf8(s).len()) + encode_utf8(s)
}

/// The encoding of one step: its mark, then count and label where it has them.
pub open spec fn encode_op(op: OpView) -> Seq<u8> {
    match op {
        OpView::Absorb(n, l) => seq![ABSORB_MARK] + encode_len(n) + encode_text(l),
        OpView::Squeeze(n, l) => seq![SQUEEZE_MARK] + encode_len(n) + encode_text(l),
        OpView::Ratchet => seq![RATCHET_MARK],
    }
}

/// The encodings of the steps, one after the other.
pub open spec fn encode_ops(ops: Seq<OpView>) -> Seq<u8>
    decreases ops.len(),
{
    if ops.len() == 0 {
        Seq::empty()
    } else {
        encode_op(ops[0]) + encode_ops(ops.skip(1))
    }
}

/// The domain separator of a pattern: its tag, then its steps.
pub open spec fn encode_pattern(tag: Seq<char>, ops: Seq<OpView>) -> Seq<u8> {
    encode_text(tag) + encode_ops(ops)
}

/// Whether a text's byte length can be written in eight bytes.
pub open spec fn text_fits(s: Seq<char>) -> bool {
    encode_utf8(s).len() <= u64::MAX
}

/// Whether a step can stand in a pattern: it moves at least one unit, and
/// its count and label length can be written in eight bytes each.
pub open spec fn op_valid(op: OpView) -> bool {
    match op {
        OpView::Absorb(n, l) => 0 < n <= u64::MAX && text_fits(l),
        OpView::Squeeze(n, l) => 0 < n <= u64::MAX && text_fits(l),
        OpView::Ratchet => true,
    }
}

/// The number of units that a step declares; none for a ratchet.
pub open spec fn op_count(op: OpView) -> nat {
    match op {
        OpView::Absorb(count, _) => count,
        OpView::Squeeze(count, _) => count,
        OpView::Ratchet => 0,
    }
}

/// Whether every step of the list can stand in a pattern.
pub open spec fn ops_valid(ops: Seq<OpView>) -> bool {
    forall|i: int| 0 <= i < ops.len() ==> op_valid(#[trigger] ops[i])
}

/// The steps of a list of `Op`, as mathematical values.
pub open spec fn ops_view(ops: Seq<Op>) -> Seq<OpView> {
    ops.map_values(|op: Op| op@)
}

impl Op {
    /// A copy of the step.
    pub fn duplicate(&self) -> (r: Op)
        ensures
            r@ == self@,
    {
        match self {
            Op::Absorb(n, l) => Op::Absorb(*n, l.clone()),
            Op::Squeeze(n, l) => Op::Squeeze(*n, l.clone()),
            Op::Ratchet => Op::Ratchet,
        }
    }

    /// Appends the step's encoding to `out`.
    pub fn encode_into(&self, out: &mut Vec<u8>)
        ensures
            final(out)@ == old(out)@ + encode_op(self@),
    {
        match self {
            Op::Absorb(n, l) => {
                out.push(ABSORB_MARK);
                push_len(out, *n);
                push_text(out, l.as_str());
                assert(final(out)@ =~= old(out)@ + encode_op(self@));
            },
            Op::Squeeze(n, l) => {
                out.push(SQUEEZE_MARK);
                push_len(out, *n);
                push_text(out, l.as_str());
                assert(final(out)@ =~= old(out)@ + encode_op(self@));
            },
            Op::Ratchet => {
                out.push(RATCHET_MARK);
                assert(final(out)@ =~= old(out)@ + encode_op(self@));
            },
        }
    }
}

/// Appends a length to `out` as eight little-endian bytes.
pub fn push_len(out: &mut Vec<u8>, n: usize)
    ensures
        final(out)@ == old(out)@ + encode_len(n as nat),
{
    let mut bytes = u64_to_le_bytes(n as u64);
    out.append(&mut bytes);
}

/// Appends a text to `out`: the number of its UTF-8 bytes, then the bytes.
pub fn push_text(out: &mut Vec<u8>, s: &str)
    ensures
        final(out)@ == old(out)@ + encode_text(s@),
        text_fits(s@),
{
    let bytes = s.as_bytes();
    push_len(out, bytes.len());
    let mut copy = vstd::slice::slice_to_vec(bytes);
    out.append(&mut copy);
    assert(final(out)@ =~= old(out)@ + encode_text(s@));
}

/// An owned copy of a text. A text in memory holds no more bytes than a
/// `usize` counts, so the number of its bytes can be written in eight.
pub fn owned_text(s: &str) -> (r: String)
    ensures
        r@ == s@,
        text_fits(s@),
{
    let count = s.as_bytes().len();
    assert(encode_utf8(s@).len() == count);
    s.to_owned()
}

/// A pattern as a mathematical value: its domain tag and its steps in order.
pub struct IOPatternView {
    pub tag: Seq<char>,
    pub ops: Seq<OpView>,
}

/// The declared shape of a protocol: a domain tag and the steps in the order
/// in which prover and verifier must perform them.
#[derive(Debug)]
pub struct IOPattern {
    tag: String,
    ops: Vec<Op>,
}

impl View for IOPattern {
    type V = IOPatternView;

    closed spec fn view(&self) -> IOPatternView {
        IOPatternView { tag: self.tag@, ops: ops_view(self.ops@) }
    }
}

impl IOPattern {
    /// The invariant of a pattern: the tag's length can be written in eight
    /// bytes and every step is valid.
    pub open spec fn wf(&self) -> bool {
        text_fits(self@.tag) && ops_valid(self@.ops)
    }

    /// The domain separator as a mathematical value.
    pub open spec fn spec_finalize(&self) -> Seq<u8> {
        encode_pattern(self@.tag, self@.ops)
    }

    /// An empty pattern under the given domain tag.
    pub fn new(domain_tag: &str) -> (p: IOPattern)
        ensures
            p.wf(),
            p@.tag == domain_tag@,
            p@.ops == Seq::<OpView>::empty(),
    {
        let p = IOPattern { tag: owned_text(domain_tag), ops: Vec::new() };
        assert(p@.ops =~= Seq::<OpView>::empty());
        p
    }

    fn with_step(self, op: Op) -> (p: IOPattern)
        requires
            self.wf(),
            op_valid(op@),
        ensures
            p.wf(),
            p@.tag == self@.tag,
            p@.ops == self@.ops.push(op@),
    {
        let mut p = self;
        p.ops.push(op);
        assert(p@.ops =~= self@.ops.push(op@));
        p
    }

    /// The pattern with one more step: absorb `count` units named by `label`.
    /// A step of no units is refused.
    pub fn absorb(self, count: usize, label: &str) -> (r: Result<IOPattern, IOPatternError>)
        requires
            self.wf(),
        ensures
            count == 0 <==> r is Err,
            r is Err ==> r == Err::<IOPattern, IOPatternError>(IOPatternError::EmptyStep),
            r is Ok ==> r->Ok_0.wf() && r->Ok_0@.tag == self@.tag && r->Ok_0@.ops
                == self@.ops.push(OpView::Absorb(count as nat, label@)),
    {
        if count == 0 {
            return Err(IOPatternError::EmptyStep);
        }
        Ok(self.with_step(Op::Absorb(count, owned_text(label))))
    }

    /// The pattern with one more step: squeeze `count` units named by `label`.
    /// A step of no units is refused.
    pub fn squeeze(self, count: usize, label: &str) -> (r: Result<IOPattern, IOPatternError>)
        requires
            self.wf(),
        ensures
            count == 0 <==> r is Err,
            r is Err ==> r == Err::<IOPattern, IOPatternError>(IOPatternError::EmptyStep),
            r is Ok ==> r->Ok_0.wf() && r->Ok_0@.tag == self@.tag && r->Ok_0@.ops
                == self@.ops.push(OpView::Squeeze(count as nat, label@)),
    {
        if count == 0 {
            return Err(IOPatternError::EmptyStep);
        }
        Ok(self.with_step(Op::Squeeze(count, owned_text(label))))
    }

    /// The pattern with one more step: ratchet.
    pub fn ratchet(self) -> (p: IOPattern)
        requires
            self.wf(),
        ensures
            p.wf(),
            p@.tag == self@.tag,
            p@.ops == self@.ops.push(OpView::Ratchet),
    {
        self.with_step(Op::Ratchet)
    }

    /// The domain tag.
    pub fn tag(&self) -> (t: &str)
        ensures
            t@ == self@.tag,
    {
        self.tag.as_str()
    }

    /// The number of steps.
    pub fn len(&self) -> (n: usize)
        ensures
            n == self@.ops.len(),
    {
        self.ops.len()
    }

    /// A copy of the steps, in order.
    pub fn steps(&self) -> (r: Vec<Op>)
        ensures
            ops_view(r@) == self@.ops,
    {
        let mut r: Vec<Op> = Vec::new();
        let mut i: usize = 0;
        while i < self.ops.len()
            invariant
                i <= self.ops.len(),
                r.len() == i,
                forall|j: int| 0 <= j < i ==> r@[j]@ == self.ops@[j]@,
            decreases self.ops.len() - i,
        {
            r.push(self.ops[i].duplicate());
            i += 1;
        }
        assert(ops_view(r@) =~= self@.ops);
        r
    }

    /// The domain separator: the canonical encoding of the tag and of every
    /// step, which seeds the sponge.
    pub fn finalize(&self) -> (out: Vec<u8>)
        ensures
            out@ == self.spec_finalize(),
    {
        let mut out: Vec<u8> = Vec::new();
        push_text(&mut out, self.tag.as_str());
        assert(self@.ops.skip(0) =~= self@.ops);
        assert(out@ =~= encode_text(self@.tag));
        let mut i: usize = 0;
        while i < self.ops.len()
            invariant
                i <= self.ops.len(),
                out@ + encode_ops(self@.ops.skip(i as int)) == self.spec_finalize(),
            decreases self.ops.len() - i,
        {
            let ghost before = out@;
            let ghost rest = self@.ops.skip(i as int);
            self.ops[i].encode_into(&mut out);
            proof {
                assert(rest[0] == self.ops@[i as int]@);
                assert(rest.skip(1) =~= self@.ops.skip(i + 1));
                assert(out@ + encode_ops(rest.skip(1)) =~= before + encode_ops(rest));
            }
            i += 1;
        }
        assert(out@ + encode_ops(self@.ops.skip(i as int)) =~= out@);
        out
    }
}

/// A text's encoding in front of other bytes determines the text and what
/// follows it.
pub proof fn lemma_text_prefix(a: Seq<char>, b: Seq<char>, x: Seq<u8>, y: Seq<u8>)
    requires
        text_fits(a),
        text_fits(b),
        encode_text(a) + x == encode_text(b) + y,
    ensures
        a == b,
        x == y,
{
    lemma_auto_spec_u64_to_from_le_bytes();
    let ea = encode_utf8(a);
    let eb = encode_utf8(b);
    let la = encode_len(ea.len());
    let lb = encode_len(eb.len());
    let s = encode_text(a) + x;
    let t = encode_text(b) + y;
    assert(s.subrange(0, 8) =~= la);
    assert(t.subrange(0, 8) =~= lb);
    assert(spec_u64_from_le_bytes(la) == ea.len() as u64);
    assert(spec_u64_from_le_bytes(lb) == eb.len() as u64);
    assert(ea.len() == eb.len());
    let n = ea.len() as int;
    assert(s.subrange(8, 8 + n) =~= ea);
    assert(t.subrange(8, 8 + n) =~= eb);
    encode_utf8_decode_utf8(a);
    encode_utf8_decode_utf8(b);
    assert(a == b);
    assert(s.subrange(8 + n, s.len() as int) =~= x);
    assert(t.subrange(8 + n, t.len() as int) =~= y);
}

/// A step's encoding in front of other bytes determines the step and what
/// follows it.
pub proof fn lemma_op_prefix(a: OpView, b: OpView, x: Seq<u8>, y: Seq<u8>)
    requires
        op_valid(a),
        op_valid(b),
        encode_op(a) + x == encode_op(b) + y,
    ensures
        a == b,
        x == y,
{
    lemma_auto_spec_u64_to_from_le_bytes();
    let s = encode_op(a) + x;
    let t = encode_op(b) + y;
    assert(s[0] == encode_op(a)[0]);
    assert(t[0] == encode_op(b)[0]);
    match (a, b) {
        (OpView::Ratchet, OpView::Ratchet) => {
            assert(s.subrange(1, s.len() as int) =~= x);
            assert(t.subrange(1, t.len() as int) =~= y);
        },
        (OpView::Absorb(n, l), OpView::Absorb(m, k)) => {
            assert(s.subrange(1, s.len() as int) =~= encode_len(n) + encode_text(l) + x);
            assert(t.subrange(1, t.len() as int) =~= encode_len(m) + encode_text(k) + y);
            lemma_counted_prefix(n, l, m, k, x, y, s, t);
        },
        (OpView::Squeeze(n, l), OpView::Squeeze(m, k)) => {
            assert(s.subrange(1, s.len() as int) =~= encode_len(n) + encode_text(l) + x);
            assert(t.subrange(1, t.len() as int) =~= encode_len(m) + encode_text(k) + y);
            lemma_counted_prefix(n, l, m, k, x, y, s, t);
        },
        _ => {
            assert(false);
        },
    }
}

proof fn lemma_counted_prefix(
    n: nat,
    l: Seq<char>,
    m: nat,
    k: Seq<char>,
    x: Seq<u8>,
    y: Seq<u8>,
    s: Seq<u8>,
    t: Seq<u8>,
)
    requires
        n <= u64::MAX,
        m <= u64::MAX,
        text_fits(l),
        text_fits(k),
        s == t,
        s.len() > 0,
        s.subrange(1, s.len() as int) == encode_len(n) + encode_text(l) + x,
        t.subrange(1, t.len() as int) == encode_len(m) + encode_text(k) + y,
    ensures
        n == m,
        l == k,
        x == y,
{
    lemma_auto_spec_u64_to_from_le_bytes();
    let u = s.subrange(1, s.len() as int);
    assert(u.subrange(0, 8) =~= encode_len(n));
    assert(u.subrange(0, 8) =~= encode_len(m));
    assert(spec_u64_from_le_bytes(encode_len(n)) == n as u64);
    assert(spec_u64_from_le_bytes(encode_len(m)) == m as u64);
    assert(u.subrange(8, u.len() as int) =~= encode_text(l) + x);
    assert(u.subrange(8, u.len() as int) =~= encode_text(k) + y);
    lemma_text_prefix(l, k, x, y);
}

/// Two lists of valid steps with the same encoding are the same list.
pub proof fn lemma_encode_ops_injective(a: Seq<OpView>, b: Seq<OpView>)
    requires
        ops_valid(a),
        ops_valid(b),
        encode_ops(a) == encode_ops(b),
    ensures
        a == b,
    decreases a.len(),
{
    if a.len() == 0 {
        if b.len() > 0 {
            assert(encode_op(b[0]).len() > 0);
            assert(encode_ops(b).len() > 0);
        }
        assert(a =~= b);
    } else {
        assert(encode_op(a[0]).len() > 0);
        assert(encode_ops(a).len() > 0);
        assert(b.len() > 0);
        assert(op_valid(a[0]) && op_valid(b[0]));
        lemma_op_prefix(a[0], b[0], encode_ops(a.skip(1)), encode_ops(b.skip(1)));
        assert(ops_valid(a.skip(1))) by {
            assert forall|i: int| 0 <= i < a.skip(1).len() implies op_valid(
                #[trigger] a.skip(1)[i],
            ) by {
                assert(a.skip(1)[i] == a[i + 1]);
            }
        }
        assert(ops_valid(b.skip(1))) by {
            assert forall|i: int| 0 <= i < b.skip(1).len() implies op_valid(
                #[trigger] b.skip(1)[i],
            ) by {
                assert(b.skip(1)[i] == b[i + 1]);
            }
        }
        lemma_encode_ops_injective(a.skip(1), b.skip(1));
        assert(a =~= seq![a[0]] + a.skip(1));
        assert(b =~= seq![b[0]] + b.skip(1));
    }
}

/// Domain separation: two patterns with the same domain separator have the
/// same tag and the same steps, so patterns that differ in their tag or in
/// the kind, count or label of any step have different domain separators.
pub proof fn lemma_finalize_injective(p: IOPattern, q: IOPattern)
    requires
        p.wf(),
        q.wf(),
        p.spec_finalize() == q.spec_finalize(),
    ensures
        p@ == q@,
{
    lemma_text_prefix(p@.tag, q@.tag, encode_ops(p@.ops), encode_ops(q@.ops));
    lemma_encode_ops_injective(p@.ops, q@.ops);
}

} // verus!
