//! Integer resampler.
//!
//! Converts a PCM stream at an arbitrary source rate into the mandated
//! target rate while preserving the channel count and the sample
//! ordering, by sample holding: output frame `j` carries the samples of
//! input frame `floor(j * source / target)`.  The conversion ratio is
//! rarely an integer, so output frames do not align with input block
//! boundaries: unconsumed input frames are retained across calls, and
//! a fresh instance is required per track, since tracks may differ in
//! rate and layout.  Samples are interleaved, one frame being one
//! sample per channel.

use vstd::prelude::*;

verus! {

/// Output frames owed once `n` input frames are in: the number of
/// output instants lying strictly inside the covered input time,
/// `ceil(n * tgt / src)`.
pub open spec fn out_frames_for(n: nat, tgt: nat, src: nat) -> int
    recommends
        src >= 1,
{
    (n as int * tgt as int + src - 1) / (src as int)
}

/// The input frame an output frame reads: `floor(j * src / tgt)`.
pub open spec fn src_index(j: nat, tgt: nat, src: nat) -> int
    recommends
        tgt >= 1,
{
    (j as int * src as int) / (tgt as int)
}

/// For a positive divisor, a quotient is below a bound exactly when
/// the dividend is below the bound times the divisor.
proof fn lemma_div_below(a: int, b: int, c: int)
    requires
        0 <= a,
        0 < b,
        0 <= c,
    ensures
        (a / b < c) <==> (a < c * b),
{
    let q = a / b;
    let r = a % b;
    vstd::arithmetic::div_mod::lemma_fundamental_div_mod(a, b);
    vstd::arithmetic::div_mod::lemma_mod_bound(a, b);
    vstd::arithmetic::div_mod::lemma_div_pos_is_pos(a, b);
    assert((q < c) <==> (b * q + r < c * b)) by (nonlinear_arith)
        requires
            0 <= r < b,
            0 < b,
            0 <= c,
            0 <= q,
    ;
}

/// An output frame is owed exactly while its input frame has arrived:
/// `j < ceil(n*tgt/src)`, `j*src < n*tgt` and `floor(j*src/tgt) < n`
/// all say the same thing.
pub proof fn lemma_emission(j: nat, n: nat, tgt: nat, src: nat)
    requires
        tgt >= 1,
        src >= 1,
    ensures
        (j < out_frames_for(n, tgt, src)) <==> (j * src < n * tgt),
        (src_index(j, tgt, src) < n) <==> (j * src < n * tgt),
{
    lemma_div_below(j as int * src as int, tgt as int, n as int);
    lemma_div_below(n as int * tgt as int + src - 1, src as int, j as int + 1);
    assert((n * tgt + src - 1 < (j + 1) * src) <==> (n * tgt <= j * src)) by (nonlinear_arith)
        requires
            src >= 1,
    ;
}

/// More input never owes fewer output frames.
pub proof fn lemma_out_frames_monotonic(n1: nat, n2: nat, tgt: nat, src: nat)
    requires
        src >= 1,
        n1 <= n2,
    ensures
        out_frames_for(n1, tgt, src) <= out_frames_for(n2, tgt, src),
{
    vstd::arithmetic::mul::lemma_mul_inequality(n1 as int, n2 as int, tgt as int);
    vstd::arithmetic::div_mod::lemma_div_is_ordered(
        n1 as int * tgt as int + src - 1,
        n2 as int * tgt as int + src - 1,
        src as int,
    );
}

/// Reading instants move forward with the output index.
pub proof fn lemma_src_index_monotonic(j1: nat, j2: nat, tgt: nat, src: nat)
    requires
        tgt >= 1,
        j1 <= j2,
    ensures
        0 <= src_index(j1, tgt, src) <= src_index(j2, tgt, src),
{
    vstd::arithmetic::mul::lemma_mul_inequality(j1 as int, j2 as int, src as int);
    vstd::arithmetic::div_mod::lemma_div_is_ordered(
        j1 as int * src as int,
        j2 as int * src as int,
        tgt as int,
    );
    vstd::arithmetic::div_mod::lemma_div_pos_is_pos(j1 as int * src as int, tgt as int);
}

/// Whether another output frame is due: `out*src < in*tgt`.
fn more_due(out_frames: u64, src: u32, in_frames: u64, tgt: u32) -> (b: bool)
    ensures
        b == ((out_frames as int) * (src as int) < (in_frames as int) * (tgt as int)),
{
    proof {
        vstd::arithmetic::mul::lemma_mul_nonnegative(out_frames as int, src as int);
        vstd::arithmetic::mul::lemma_mul_nonnegative(in_frames as int, tgt as int);
        vstd::arithmetic::mul::lemma_mul_upper_bound(
            out_frames as int,
            u64::MAX as int,
            src as int,
            u32::MAX as int,
        );
        vstd::arithmetic::mul::lemma_mul_upper_bound(
            in_frames as int,
            u64::MAX as int,
            tgt as int,
            u32::MAX as int,
        );
    }
    (out_frames as u128) * (src as u128) < (in_frames as u128) * (tgt as u128)
}

/// The input frame the next output frame reads: `floor(out*src/tgt)`.
fn read_index(out_frames: u64, src: u32, tgt: u32) -> (r: u128)
    requires
        tgt >= 1,
    ensures
        r == src_index(out_frames as nat, tgt as nat, src as nat),
{
    proof {
        vstd::arithmetic::mul::lemma_mul_nonnegative(out_frames as int, src as int);
        vstd::arithmetic::mul::lemma_mul_upper_bound(
            out_frames as int,
            u64::MAX as int,
            src as int,
            u32::MAX as int,
        );
        vstd::arithmetic::div_mod::lemma_div_pos_is_pos(
            out_frames as int * src as int,
            tgt as int,
        );
        vstd::arithmetic::div_mod::lemma_div_is_ordered_by_denominator(
            out_frames as int * src as int,
            1,
            tgt as int,
        );
    }
    (out_frames as u128) * (src as u128) / (tgt as u128)
}

/// A sample's place inside a block of whole frames stays inside the
/// block.
proof fn lemma_block_index(jrel: int, cc: int, blocks: int, ch: int)
    requires
        0 <= jrel < blocks,
        0 <= cc < ch,
    ensures
        0 <= jrel * ch + cc < blocks * ch,
{
    vstd::arithmetic::mul::lemma_mul_nonnegative(jrel, ch);
    assert(jrel * ch + cc < blocks * ch) by (nonlinear_arith)
        requires
            0 <= jrel < blocks,
            0 <= cc < ch,
    ;
}

/// Appends the samples of `src`.
fn append_samples(dst: &mut Vec<i16>, src: &Vec<i16>)
    ensures
        final(dst)@ == old(dst)@ + src@,
{
    let mut i: usize = 0;
    while i < src.len()
        invariant
            i <= src@.len(),
            dst@ == old(dst)@ + src@.subrange(0, i as int),
        decreases src@.len() - i,
    {
        dst.push(src[i]);
        proof {
            assert(dst@ =~= old(dst)@ + src@.subrange(0, i + 1 as int));
        }
        i += 1;
    }
    proof {
        assert(old(dst)@ + src@.subrange(0, src@.len() as int) =~= old(dst)@ + src@);
    }
}

/// A stateful rate converter for one track.
pub struct Resampler {
    /// The source rate in frames per second.
    pub src_rate: u32,
    /// The mandated output rate in frames per second.
    pub target_rate: u32,
    /// Samples per frame.
    pub channels: usize,
    /// The retained input samples, whole frames from `base` on.
    pub buf: Vec<i16>,
    /// The index of the first retained input frame.
    pub base: u64,
    /// Input frames received so far.
    pub in_frames: u64,
    /// Output frames emitted so far.
    pub out_frames: u64,
    /// Every input sample ever received, in order.
    pub hist: Ghost<Seq<i16>>,
}

impl Resampler {
    /// The converter's invariant: the counters match the history, the
    /// output is fully caught up with the input, and the retained
    /// frames cover every future read.
    pub open spec fn wf(&self) -> bool {
        &&& self.channels >= 1
        &&& self.src_rate >= 1
        &&& self.target_rate >= 1
        &&& self.in_frames <= u32::MAX
        &&& self.hist@.len() == self.in_frames * self.channels
        &&& self.out_frames == out_frames_for(
            self.in_frames as nat,
            self.target_rate as nat,
            self.src_rate as nat,
        )
        &&& self.base <= self.in_frames
        &&& self.base <= src_index(
            self.out_frames as nat,
            self.target_rate as nat,
            self.src_rate as nat,
        )
        &&& self.buf@ == self.hist@.subrange(
            self.base * self.channels,
            self.in_frames * self.channels,
        )
    }

    /// A fresh converter for one track.
    pub fn new(src_rate: u32, target_rate: u32, channels: usize) -> (r: Self)
        requires
            src_rate >= 1,
            target_rate >= 1,
            channels >= 1,
        ensures
            r.wf(),
            r.src_rate == src_rate,
            r.target_rate == target_rate,
            r.channels == channels,
            r.in_frames == 0,
            r.out_frames == 0,
            r.hist@ == Seq::<i16>::empty(),
    {
        let r = Resampler {
            src_rate,
            target_rate,
            channels,
            buf: Vec::new(),
            base: 0,
            in_frames: 0,
            out_frames: 0,
            hist: Ghost(Seq::empty()),
        };
        proof {
            assert(r.buf@ =~= r.hist@.subrange(0, 0));
            lemma_div_below(src_rate - 1, src_rate as int, 1);
            vstd::arithmetic::div_mod::lemma_div_pos_is_pos(src_rate - 1, src_rate as int);
            assert(out_frames_for(0, target_rate as nat, src_rate as nat) == 0);
            vstd::arithmetic::div_mod::lemma_div_pos_is_pos(0, target_rate as int);
        }
        r
    }

    /// Feeds one block of interleaved samples, whole frames only, and
    /// returns every output frame that became due, in order: output
    /// frame `j` carries, per channel, the sample of input frame
    /// `floor(j * src / tgt)`.  After the call the output is caught up
    /// with the input; what later frames will need is retained.
    #[verifier::loop_isolation(false)]
    pub fn feed(&mut self, input: &Vec<i16>) -> (out: Vec<i16>)
        requires
            old(self).wf(),
            input@.len() as int % (old(self).channels as int) == 0,
            old(self).in_frames + input@.len() as int / (old(self).channels as int) <= u32::MAX,
        ensures
            final(self).wf(),
            final(self).src_rate == old(self).src_rate,
            final(self).target_rate == old(self).target_rate,
            final(self).channels == old(self).channels,
            final(self).hist@ == old(self).hist@ + input@,
            final(self).in_frames == old(self).in_frames + input@.len() as int / (
            old(self).channels as int),
            final(self).out_frames == out_frames_for(
                final(self).in_frames as nat,
                old(self).target_rate as nat,
                old(self).src_rate as nat,
            ),
            out@.len() == (final(self).out_frames - old(self).out_frames) * old(self).channels,
            forall|j: int, c: int|
                old(self).out_frames <= j < final(self).out_frames && 0 <= c < old(self).channels
                    ==> #[trigger] out@[(j - old(self).out_frames) * old(self).channels + c]
                    == final(self).hist@[src_index(
                    j as nat,
                    old(self).target_rate as nat,
                    old(self).src_rate as nat,
                ) * old(self).channels + c],
    {
        let ch = self.channels;
        let src = self.src_rate;
        let tgt = self.target_rate;
        let add_frames = input.len() / ch;
        proof {
            vstd::arithmetic::div_mod::lemma_fundamental_div_mod(input@.len() as int, ch as int);
            vstd::arithmetic::mul::lemma_mul_is_distributive_add(
                ch as int,
                self.in_frames as int,
                add_frames as int,
            );
        }
        append_samples(&mut self.buf, input);
        proof {
            self.hist@ = self.hist@ + input@;
        }
        let ghost old_in = self.in_frames;
        self.in_frames = self.in_frames + add_frames as u64;
        proof {
            assert(input@.len() == ch * add_frames);
            assert(self.hist@ == old(self).hist@ + input@);
            assert(old(self).hist@.len() == old_in * ch);
            assert(self.hist@.len() == old_in * ch + ch * add_frames);
            assert(self.hist@.len() == self.in_frames * ch) by (nonlinear_arith)
                requires
                    self.hist@.len() == old_in * ch + ch * add_frames,
                    self.in_frames == old_in + add_frames,
            ;
            assert(self.buf@ =~= self.hist@.subrange(
                self.base * ch as int,
                self.in_frames * ch as int,
            )) by {
                assert(self.base * ch <= old_in * ch <= self.hist@.len()) by (nonlinear_arith)
                    requires
                        self.base <= old_in,
                        ch >= 1,
                        self.hist@.len() == self.in_frames * ch,
                        self.in_frames == old_in + add_frames,
                ;
            };
        }

        proof {
            lemma_out_frames_monotonic(old_in as nat, self.in_frames as nat, tgt as nat, src as nat);
        }
        let ghost start = self.out_frames;
        let mut out: Vec<i16> = Vec::new();
        while more_due(self.out_frames, src, self.in_frames, tgt)
            invariant
                ch == self.channels,
                src == self.src_rate,
                tgt == self.target_rate,
                ch >= 1,
                src >= 1,
                tgt >= 1,
                self.in_frames <= u32::MAX,
                self.hist@ == old(self).hist@ + input@,
                self.in_frames == old(self).in_frames + add_frames,
                start == old(self).out_frames,
                self.hist@.len() == self.in_frames * ch,
                self.base <= self.in_frames,
                self.base <= src_index(self.out_frames as nat, tgt as nat, src as nat),
                self.buf@ == self.hist@.subrange(self.base * ch as int, self.in_frames * ch as int),
                start <= self.out_frames,
                self.out_frames <= out_frames_for(self.in_frames as nat, tgt as nat, src as nat),
                out@.len() == (self.out_frames - start) * ch,
                forall|j: int, c: int|
                    start <= j < self.out_frames && 0 <= c < ch ==> #[trigger] out@[(j - start) * ch
                        + c] == self.hist@[src_index(j as nat, tgt as nat, src as nat) * ch + c],
            decreases out_frames_for(self.in_frames as nat, tgt as nat, src as nat)
                - self.out_frames,
        {
            proof {
                lemma_emission(self.out_frames as nat, self.in_frames as nat, tgt as nat, src as nat);
            }
            let ghost j_now = self.out_frames;
            let s_idx_wide = read_index(self.out_frames, src, tgt);
            let s_idx = s_idx_wide as u64;
            proof {
                assert(s_idx == src_index(self.out_frames as nat, tgt as nat, src as nat));
                assert(s_idx < self.in_frames);
                assert(self.base * ch <= self.in_frames * ch <= self.hist@.len())
                    by (nonlinear_arith)
                    requires
                        self.base <= self.in_frames,
                        ch >= 1,
                        self.hist@.len() == self.in_frames * ch,
                ;
                assert(self.buf@.len() == self.in_frames * ch - self.base * ch);
                assert((s_idx - self.base) * ch + ch <= self.buf@.len() && (s_idx - self.base) <= (
                s_idx - self.base) * ch && 0 <= (s_idx - self.base) * ch) by (nonlinear_arith)
                    requires
                        self.base <= s_idx < self.in_frames,
                        ch >= 1,
                        self.buf@.len() == self.in_frames * ch - self.base * ch,
                ;
            }
            let buf_len = self.buf.len();
            let off = ((s_idx - self.base) as usize) * ch;
            proof {
                assert(off + ch <= buf_len);
                assert(self.base * ch + (s_idx - self.base) * ch == s_idx * ch)
                    by (nonlinear_arith)
                ;
            }
            let mut c: usize = 0;
            while c < ch
                invariant
                    c <= ch,
                    ch >= 1,
                    off == (s_idx - self.base) * ch,
                    off + ch <= self.buf@.len(),
                    self.base * ch + off == src_index(j_now as nat, tgt as nat, src as nat) * ch,
                    self.buf@ == self.hist@.subrange(
                        self.base * ch as int,
                        self.in_frames * ch as int,
                    ),
                    self.hist@.len() == self.in_frames * ch,
                    self.base <= self.in_frames,
                    j_now == self.out_frames,
                    start <= self.out_frames,
                    out@.len() == (self.out_frames - start) * ch + c,
                    forall|j: int, cc: int|
                        start <= j < self.out_frames && 0 <= cc < ch ==> #[trigger] out@[(j - start)
                            * ch + cc] == self.hist@[src_index(j as nat, tgt as nat, src as nat)
                            * ch + cc],
                    forall|cc: int|
                        0 <= cc < c ==> #[trigger] out@[(self.out_frames - start) * ch + cc]
                            == self.hist@[src_index(j_now as nat, tgt as nat, src as nat) * ch
                            + cc],
                decreases ch - c,
            {
                let ghost out_before = out@;
                out.push(self.buf[off + c]);
                proof {
                    let sidx_int = src_index(j_now as nat, tgt as nat, src as nat);
                    assert(self.buf@[off + c] == self.hist@[self.base * ch as int + (off
                        + c as int)]);
                    assert(self.base * ch + off + c == sidx_int * ch + c);
                    assert forall|j: int, cc: int|
                        start <= j < self.out_frames && 0 <= cc < ch implies 0 <= #[trigger] ((j
                        - start) * ch + cc) < (self.out_frames - start) * ch by {
                        lemma_block_index(j - start, cc, self.out_frames - start, ch as int);
                    };
                }
                c += 1;
            }
            proof {
                vstd::arithmetic::mul::lemma_mul_is_distributive_add_other_way(
                    ch as int,
                    self.out_frames + 1 - start,
                    1,
                );
                lemma_src_index_monotonic(
                    self.out_frames as nat,
                    (self.out_frames + 1) as nat,
                    tgt as nat,
                    src as nat,
                );
                lemma_duration_tolerance(self.in_frames as nat, tgt as nat, src as nat);
                assert(out_frames_for(self.in_frames as nat, tgt as nat, src as nat) <= u64::MAX)
                    by (nonlinear_arith)
                    requires
                        out_frames_for(self.in_frames as nat, tgt as nat, src as nat) * src
                            < self.in_frames * tgt + src,
                        self.in_frames <= u32::MAX,
                        1 <= src <= u32::MAX,
                        1 <= tgt <= u32::MAX,
                        out_frames_for(self.in_frames as nat, tgt as nat, src as nat) >= 0,
                ;
            }
            self.out_frames = self.out_frames + 1;
            proof {
                assert(out@.len() == (self.out_frames - start) * ch) by (nonlinear_arith)
                    requires
                        out@.len() == (self.out_frames - 1 - start) * ch + ch,
                ;
                assert forall|j: int, cc: int|
                    start <= j < self.out_frames && 0 <= cc < ch implies #[trigger] out@[(j - start)
                    * ch + cc] == self.hist@[src_index(j as nat, tgt as nat, src as nat) * ch + cc] by {
                    if j == j_now {
                        assert(out@[(j_now - start) * ch + cc] == self.hist@[src_index(
                            j_now as nat,
                            tgt as nat,
                            src as nat,
                        ) * ch + cc]);
                    }
                };
            }
        }
        proof {
            lemma_emission(self.out_frames as nat, self.in_frames as nat, tgt as nat, src as nat);
        }

        // Drop the input frames no future output frame reads.
        let next_read = read_index(self.out_frames, src, tgt);
        let nb: u64 = if next_read >= self.in_frames as u128 {
            self.in_frames
        } else {
            next_read as u64
        };
        let buf_len = self.buf.len();
        proof {
            vstd::arithmetic::div_mod::lemma_div_pos_is_pos(
                self.out_frames * src as int,
                tgt as int,
            );
            assert(next_read == src_index(self.out_frames as nat, tgt as nat, src as nat));
            assert(self.base * ch <= self.in_frames * ch <= self.hist@.len()) by (nonlinear_arith)
                requires
                    self.base <= self.in_frames,
                    ch >= 1,
                    self.hist@.len() == self.in_frames * ch,
            ;
            assert(buf_len == self.in_frames * ch - self.base * ch);
            assert((nb - self.base) * ch <= buf_len && (nb - self.base) <= (nb - self.base) * ch
                && 0 <= (nb - self.base) * ch) by (nonlinear_arith)
                requires
                    self.base <= nb <= self.in_frames,
                    ch >= 1,
                    buf_len == self.in_frames * ch - self.base * ch,
            ;
        }
        let drop_frames = nb - self.base;
        let at = (drop_frames as usize) * ch;
        let tail = self.buf.split_off(at);
        let ghost front = self.buf@;
        self.buf = tail;
        let ghost old_base = self.base;
        self.base = nb;
        proof {
            assert(self.buf@ =~= self.hist@.subrange(
                self.base * ch as int,
                self.in_frames * ch as int,
            )) by {
                assert(old_base * ch + (drop_frames * ch) == nb * ch) by (nonlinear_arith)
                    requires
                        old_base + drop_frames == nb,
                ;
            };
        }
        out
    }

    /// Seals the stream once no more input exists for the track.
    /// Under sample holding an output frame is due as soon as its input
    /// frame is in and `feed` emits eagerly, so no trailing output
    /// remains: the final partial block is provably empty.
    pub fn finish(&mut self) -> (out: Vec<i16>)
        requires
            old(self).wf(),
        ensures
            *final(self) == *old(self),
            out@.len() == (out_frames_for(
                old(self).in_frames as nat,
                old(self).target_rate as nat,
                old(self).src_rate as nat,
            ) - old(self).out_frames) * old(self).channels,
            out@.len() == 0,
    {
        Vec::new()
    }
}

/// Law: over a whole stream of `n` input frames the emitted output
/// covers the input duration to within one output frame of rounding:
/// `n*tgt <= m*src < n*tgt + src` for the emitted frame count `m`.
pub proof fn lemma_duration_tolerance(n: nat, tgt: nat, src: nat)
    requires
        src >= 1,
        tgt >= 1,
    ensures
        out_frames_for(n, tgt, src) * src >= n * tgt,
        out_frames_for(n, tgt, src) * src < n * tgt + src,
{
    let m = out_frames_for(n, tgt, src);
    vstd::arithmetic::mul::lemma_mul_nonnegative(n as int, tgt as int);
    vstd::arithmetic::div_mod::lemma_div_pos_is_pos(n as int * tgt as int + src - 1, src as int);
    lemma_emission(m as nat, n, tgt, src);
    if m >= 1 {
        lemma_emission((m - 1) as nat, n, tgt, src);
        assert(((m - 1) as nat) < out_frames_for(n, tgt, src));
        assert(((m - 1) as nat) * src < n * tgt);
        assert(m * src < n * tgt + src) by (nonlinear_arith)
            requires
                m >= 1,
                (m - 1) * src < n * tgt,
        ;
    } else {
        assert(m == 0);
        assert(m * src == 0) by (nonlinear_arith)
            requires
                m == 0,
        ;
    }
}

} // verus!
