//! Bridges arbitrary-size host buffers to fixed-size processing frames.
//!
//! Plugin hosts call with whatever buffer sizes they like; this adapter
//! accumulates incoming samples in a bounded input queue, drains one full
//! stereo frame at a time through a processor, and hands processed samples
//! back in whatever chunk size the host asks for, zero-filling on underrun.
//! Partial frames are never processed. Nothing here blocks: a full queue
//! drops, an empty queue yields silence.

use vstd::prelude::*;

use crate::bypass;
use crate::engine::FrameEngine;
use crate::frame;
use crate::num::sdiv;
use crate::processor::VoidProcessor;
use crate::queue;
use crate::queue::SampleQueue;
use crate::FRAME_SIZE;

verus! {

/// Samples a full stereo frame occupies in a queue.
pub const STEREO_FRAME: usize = 960;

/// Capacity of each queue: four stereo frames.
pub const QUEUE_CAPACITY: usize = 3840;

/// The `n` leading sample pairs of two channels, interleaved.
pub open spec fn interleaved(l: Seq<i32>, r: Seq<i32>, n: nat) -> Seq<i32>
    decreases n,
{
    if n == 0 {
        Seq::empty()
    } else {
        interleaved(l, r, (n - 1) as nat).push(l[n - 1]).push(r[n - 1])
    }
}

/// The `n` leading samples of a mono channel, each doubled.
pub open spec fn duplicated(m: Seq<i32>, n: nat) -> Seq<i32>
    decreases n,
{
    if n == 0 {
        Seq::empty()
    } else {
        duplicated(m, (n - 1) as nat).push(m[n - 1]).push(m[n - 1])
    }
}

/// Offering samples to a bounded queue grows it by their number, capped at
/// the capacity.
pub proof fn lemma_enqueue_len(items: Seq<i32>, cap: nat, xs: Seq<i32>)
    requires
        items.len() <= cap,
    ensures
        queue::enqueue_all(items, cap, xs).len() == if items.len() + xs.len() < cap {
            (items.len() + xs.len()) as int
        } else {
            cap as int
        },
    decreases xs.len(),
{
    if xs.len() > 0 {
        lemma_enqueue_len(items, cap, xs.drop_last());
    }
}

/// The smaller of two lengths.
pub open spec fn shorter(a: int, b: int) -> int {
    if a <= b {
        a
    } else {
        b
    }
}

/// How many pairs a pop delivers: one per requested slot, bounded by the
/// complete pairs the output queue holds.
pub open spec fn pop_budget(slots: int, avail: int) -> int {
    if slots <= avail / 2 {
        slots
    } else {
        avail / 2
    }
}

/// Offering two batches in a row is offering their concatenation.
pub proof fn lemma_enqueue_concat(items: Seq<i32>, cap: nat, a: Seq<i32>, b: Seq<i32>)
    ensures
        queue::enqueue_all(queue::enqueue_all(items, cap, a), cap, b) == queue::enqueue_all(
            items,
            cap,
            a + b,
        ),
    decreases b.len(),
{
    if b.len() == 0 {
        assert(a + b =~= a);
    } else {
        let b0 = b.drop_last();
        let x = b.last();
        lemma_enqueue_concat(items, cap, a, b0);
        queue::lemma_enqueue_snoc(queue::enqueue_all(items, cap, a), cap, b0, x);
        queue::lemma_enqueue_snoc(items, cap, a + b0, x);
        assert((a + b0).push(x) =~= a + b);
        assert(b0.push(x) =~= b);
    }
}

/// Two channels that were de-interleaved from a stream re-interleave to the
/// stream's prefix.
pub proof fn lemma_interleaved_matches(l: Seq<i32>, r: Seq<i32>, s: Seq<i32>, n: nat)
    requires
        l.len() >= n,
        r.len() >= n,
        s.len() >= 2 * n,
        forall|j: int| 0 <= j < n ==> (#[trigger] l[j]) == s[2 * j] && r[j] == s[2 * j + 1],
    ensures
        interleaved(l, r, n) == s.subrange(0, 2 * n as int),
    decreases n,
{
    if n == 0 {
        assert(interleaved(l, r, 0) =~= s.subrange(0, 0));
    } else {
        lemma_interleaved_matches(l, r, s, (n - 1) as nat);
        assert(l[n - 1] == s[2 * (n - 1)]);
        assert(interleaved(l, r, n) =~= s.subrange(0, 2 * n as int));
    }
}

/// Accumulates host buffers into full stereo frames and drains processed
/// frames back out, via two bounded internal queues.
pub struct FrameAdapter {
    rb_in: SampleQueue,
    rb_out: SampleQueue,
}

impl FrameAdapter {
    pub closed spec fn input_items(&self) -> Seq<i32> {
        queue::queue_items(self.rb_in)
    }

    pub closed spec fn output_items(&self) -> Seq<i32> {
        queue::queue_items(self.rb_out)
    }

    pub closed spec fn wf(&self) -> bool {
        &&& queue::queue_capacity(self.rb_in) == QUEUE_CAPACITY
        &&& queue::queue_capacity(self.rb_out) == QUEUE_CAPACITY
        &&& self.input_items().len() <= QUEUE_CAPACITY
        &&& self.output_items().len() <= QUEUE_CAPACITY
    }

    /// Number of samples waiting in the input queue.
    pub fn input_len(&self) -> (r: usize)
        ensures
            r == self.input_items().len(),
    {
        queue::queue_len(&self.rb_in)
    }

    /// Number of processed samples waiting in the output queue.
    pub fn output_len(&self) -> (r: usize)
        ensures
            r == self.output_items().len(),
    {
        queue::queue_len(&self.rb_out)
    }

    pub fn new() -> (r: Self)
        ensures
            r.wf(),
            r.input_items().len() == 0,
            r.output_items().len() == 0,
    {
        FrameAdapter {
            rb_in: queue::new_queue(QUEUE_CAPACITY),
            rb_out: queue::new_queue(QUEUE_CAPACITY),
        }
    }

    /// Enqueues stereo sample pairs, one pair per index, oldest first; pairs
    /// beyond the shorter side are ignored, and samples that find the queue
    /// full are dropped.
    pub fn push_stereo_interleaved(&mut self, left: &Vec<i32>, right: &Vec<i32>)
        requires
            old(self).wf(),
        ensures
            final(self).wf(),
            final(self).input_items() == queue::enqueue_all(
                old(self).input_items(),
                QUEUE_CAPACITY as nat,
                interleaved(
                    left@,
                    right@,
                    if left@.len() <= right@.len() {
                        left@.len()
                    } else {
                        right@.len()
                    },
                ),
            ),
            final(self).output_items() == old(self).output_items(),
    {
        let len = if left.len() <= right.len() {
            left.len()
        } else {
            right.len()
        };
        let mut i: usize = 0;
        while i < len
            invariant
                i <= len,
                len <= left@.len(),
                len <= right@.len(),
                queue::queue_capacity(self.rb_in) == QUEUE_CAPACITY,
                queue::queue_items(self.rb_in).len() <= QUEUE_CAPACITY,
                self.rb_out == old(self).rb_out,
                queue::queue_items(self.rb_in) == queue::enqueue_all(
                    old(self).input_items(),
                    QUEUE_CAPACITY as nat,
                    interleaved(left@, right@, i as nat),
                ),
            decreases len - i,
        {
            let ghost before = interleaved(left@, right@, i as nat);
            queue::queue_push(&mut self.rb_in, left[i]);
            queue::queue_push(&mut self.rb_in, right[i]);
            proof {
                let after = interleaved(left@, right@, (i + 1) as nat);
                queue::lemma_enqueue_snoc(
                    old(self).input_items(),
                    QUEUE_CAPACITY as nat,
                    before,
                    left@[i as int],
                );
                queue::lemma_enqueue_snoc(
                    old(self).input_items(),
                    QUEUE_CAPACITY as nat,
                    before.push(left@[i as int]),
                    right@[i as int],
                );
                assert(after =~= before.push(left@[i as int]).push(right@[i as int]));
            }
            i += 1;
        }
    }

    /// Enqueues mono samples, duplicating each to both stereo channels.
    pub fn push_mono(&mut self, mono: &Vec<i32>)
        requires
            old(self).wf(),
        ensures
            final(self).wf(),
            final(self).input_items() == queue::enqueue_all(
                old(self).input_items(),
                QUEUE_CAPACITY as nat,
                duplicated(mono@, mono@.len()),
            ),
            final(self).output_items() == old(self).output_items(),
    {
        let mut i: usize = 0;
        while i < mono.len()
            invariant
                i <= mono@.len(),
                queue::queue_capacity(self.rb_in) == QUEUE_CAPACITY,
                queue::queue_items(self.rb_in).len() <= QUEUE_CAPACITY,
                self.rb_out == old(self).rb_out,
                queue::queue_items(self.rb_in) == queue::enqueue_all(
                    old(self).input_items(),
                    QUEUE_CAPACITY as nat,
                    duplicated(mono@, i as nat),
                ),
            decreases mono@.len() - i,
        {
            let ghost before = duplicated(mono@, i as nat);
            let s = mono[i];
            queue::queue_push(&mut self.rb_in, s);
            queue::queue_push(&mut self.rb_in, s);
            proof {
                let after = duplicated(mono@, (i + 1) as nat);
                queue::lemma_enqueue_snoc(
                    old(self).input_items(),
                    QUEUE_CAPACITY as nat,
                    before,
                    mono@[i as int],
                );
                queue::lemma_enqueue_snoc(
                    old(self).input_items(),
                    QUEUE_CAPACITY as nat,
                    before.push(mono@[i as int]),
                    mono@[i as int],
                );
                assert(after =~= before.push(mono@[i as int]).push(mono@[i as int]));
            }
            i += 1;
        }
    }

    /// Drains every complete stereo frame through the processor. Fewer
    /// samples than one full frame are left untouched and produce nothing:
    /// partial frames are never processed. Each processed frame adds one
    /// frame of samples to the output queue, up to its capacity.
    pub fn process_available<E: FrameEngine>(
        &mut self,
        processor: &mut VoidProcessor<E>,
        suppression: u32,
        threshold: u32,
        dynamic_threshold: bool,
    )
        requires
            old(self).wf(),
            old(processor).wf(),
        ensures
            final(self).wf(),
            final(processor).wf(),
            final(processor).channels_spec() == old(processor).channels_spec(),
            final(self).input_items() == old(self).input_items().skip(
                (old(self).input_items().len() as int) - ((old(self).input_items().len() as int)
                    % (STEREO_FRAME as int)),
            ),
            final(self).output_items().len() == {
                let frames = (old(self).input_items().len() as int) / (STEREO_FRAME as int);
                if old(self).output_items().len() + frames * STEREO_FRAME < QUEUE_CAPACITY {
                    (old(self).output_items().len() + frames * STEREO_FRAME) as int
                } else {
                    QUEUE_CAPACITY as int
                }
            },
            old(self).input_items().len() < STEREO_FRAME ==> final(self).input_items() == old(self).input_items() && final(self).output_items() == old(self).output_items(),
            old(self).input_items().len() < STEREO_FRAME ==> *final(processor) == *old(processor),
            final(processor).cache_spec() == old(processor).cache_spec(),
            old(self).input_items().len() >= STEREO_FRAME && old(processor).channels_spec() == 2
                ==> final(processor).bypass_spec() == bypass::frame_step(
                old(processor).bypass_spec(),
            ),
            old(processor).channels_spec() != 2 ==> final(processor).gate_spec() == old(processor).gate_spec() && final(processor).bypass_spec() == old(processor).bypass_spec()
                && final(processor).tracker_spec() == old(processor).tracker_spec() && final(processor).calibrator_spec() == old(processor).calibrator_spec(),
            old(processor).bypass_spec() == crate::bypass::BypassState::Bypassed && old(processor).channels_spec() == 2 ==> final(self).output_items() == queue::enqueue_all(
                old(self).output_items(),
                QUEUE_CAPACITY as nat,
                old(self).input_items().subrange(
                    0,
                    ((old(self).input_items().len() as int) / (STEREO_FRAME as int))
                        * (STEREO_FRAME as int),
                ),
            ),
    {
        let ghost in0 = old(self).input_items();
        let ghost out0 = old(self).output_items();
        let ghost mut it: int = 0;
        proof {
            assert(in0.subrange(0, 0) =~= Seq::<i32>::empty());
            assert(queue::enqueue_all(out0, QUEUE_CAPACITY as nat, in0.subrange(0, 0)) == out0);
        }
        loop
            invariant_except_break
                self.wf(),
                processor.wf(),
                processor.channels_spec() == old(processor).channels_spec(),
                0 <= it <= (in0.len() as int) / (STEREO_FRAME as int),
                queue::queue_items(self.rb_in) =~= in0.skip(it * STEREO_FRAME),
                queue::queue_items(self.rb_out).len() == if out0.len() + it * STEREO_FRAME
                    < QUEUE_CAPACITY {
                    out0.len() + it * STEREO_FRAME
                } else {
                    QUEUE_CAPACITY as int
                },
                it == 0 ==> queue::queue_items(self.rb_in) == in0 && queue::queue_items(
                    self.rb_out,
                ) == out0,
                it == 0 ==> *processor == *old(processor),
                processor.cache_spec() == old(processor).cache_spec(),
                it >= 1 && old(processor).channels_spec() == 2 ==> processor.bypass_spec()
                    == bypass::frame_step(old(processor).bypass_spec()),
                old(processor).channels_spec() != 2 ==> processor.gate_spec() == old(processor).gate_spec() && processor.bypass_spec() == old(processor).bypass_spec()
                    && processor.tracker_spec() == old(processor).tracker_spec()
                    && processor.calibrator_spec() == old(processor).calibrator_spec(),
                old(processor).bypass_spec() == crate::bypass::BypassState::Bypassed && old(processor).channels_spec() == 2 ==> queue::queue_items(self.rb_out) == queue::enqueue_all(
                    out0,
                    QUEUE_CAPACITY as nat,
                    in0.subrange(0, it * (STEREO_FRAME as int)),
                ) && processor.bypass_spec() == crate::bypass::BypassState::Bypassed,
            ensures
                self.wf(),
                processor.wf(),
                processor.channels_spec() == old(processor).channels_spec(),
                in0.len() < STEREO_FRAME ==> *processor == *old(processor),
                processor.cache_spec() == old(processor).cache_spec(),
                in0.len() >= STEREO_FRAME && old(processor).channels_spec() == 2
                    ==> processor.bypass_spec() == bypass::frame_step(
                    old(processor).bypass_spec(),
                ),
                old(processor).channels_spec() != 2 ==> processor.gate_spec() == old(processor).gate_spec() && processor.bypass_spec() == old(processor).bypass_spec()
                    && processor.tracker_spec() == old(processor).tracker_spec()
                    && processor.calibrator_spec() == old(processor).calibrator_spec(),
                old(processor).bypass_spec() == crate::bypass::BypassState::Bypassed && old(processor).channels_spec() == 2 ==> queue::queue_items(self.rb_out) == queue::enqueue_all(
                    out0,
                    QUEUE_CAPACITY as nat,
                    in0.subrange(
                        0,
                        ((in0.len() as int) / (STEREO_FRAME as int)) * (STEREO_FRAME as int),
                    ),
                ),
                queue::queue_items(self.rb_in) == in0.skip(
                    (in0.len() as int) - (in0.len() as int) % (STEREO_FRAME as int),
                ),
                queue::queue_items(self.rb_out).len() == {
                    let frames = (in0.len() as int) / (STEREO_FRAME as int);
                    if out0.len() + frames * STEREO_FRAME < QUEUE_CAPACITY {
                        (out0.len() + frames * STEREO_FRAME) as int
                    } else {
                        QUEUE_CAPACITY as int
                    }
                },
                in0.len() < STEREO_FRAME ==> queue::queue_items(self.rb_in) == in0
                    && queue::queue_items(self.rb_out) == out0,
            decreases in0.len() - it * STEREO_FRAME,
        {
            let avail = queue::queue_len(&self.rb_in);
            if avail < STEREO_FRAME {
                proof {
                    assert(it * STEREO_FRAME <= in0.len()) by (nonlinear_arith)
                        requires
                            0 <= it <= (in0.len() as int) / 960,
                            STEREO_FRAME == 960,
                    ;
                    assert(in0.skip(it * STEREO_FRAME).len() == in0.len() - it * STEREO_FRAME);
                    assert((in0.len() as int) / (STEREO_FRAME as int) == it) by (nonlinear_arith)
                        requires
                            0 <= it,
                            it * STEREO_FRAME <= in0.len(),
                            in0.len() - it * STEREO_FRAME < STEREO_FRAME,
                            STEREO_FRAME == 960,
                    ;
                    assert((in0.len() as int) % (STEREO_FRAME as int) == in0.len() - it * STEREO_FRAME)
                        by (nonlinear_arith)
                        requires
                            0 <= it,
                            it * STEREO_FRAME <= in0.len(),
                            in0.len() - it * STEREO_FRAME < STEREO_FRAME,
                            (in0.len() as int) / (STEREO_FRAME as int) == it,
                            STEREO_FRAME == 960,
                    ;
                    assert(queue::queue_items(self.rb_in) =~= in0.skip(
                        (in0.len() as int) - (in0.len() as int) % (STEREO_FRAME as int),
                    ));
                    if in0.len() < STEREO_FRAME {
                        assert(it == 0) by (nonlinear_arith)
                            requires
                                0 <= it,
                                it * STEREO_FRAME <= in0.len(),
                                in0.len() < STEREO_FRAME,
                                STEREO_FRAME == 960,
                        ;
                    }
                    if in0.len() >= STEREO_FRAME {
                        assert(it >= 1) by (nonlinear_arith)
                            requires
                                (in0.len() as int) / (STEREO_FRAME as int) == it,
                                in0.len() >= STEREO_FRAME,
                                STEREO_FRAME == 960,
                        ;
                    }
                }
                break ;
            }
            // Pop one full stereo frame.
            let ghost at_entry = queue::queue_items(self.rb_in);
            let ghost out_keep = queue::queue_items(self.rb_out);
            let mut left: Vec<i32> = Vec::new();
            let mut right: Vec<i32> = Vec::new();
            let mut j: usize = 0;
            while j < FRAME_SIZE
                invariant
                    j <= FRAME_SIZE,
                    left@.len() == j,
                    right@.len() == j,
                    at_entry.len() >= STEREO_FRAME,
                    queue::queue_capacity(self.rb_in) == QUEUE_CAPACITY,
                    queue::queue_capacity(self.rb_out) == QUEUE_CAPACITY,
                    queue::queue_items(self.rb_out) == out_keep,
                    queue::queue_items(self.rb_in) =~= at_entry.skip(2 * j),
                    forall|t: int| 0 <= t < j ==> (#[trigger] left@[t]) == at_entry[2 * t],
                    forall|t: int| 0 <= t < j ==> (#[trigger] right@[t]) == at_entry[2 * t + 1],
                decreases FRAME_SIZE - j,
            {
                let ghost rem = queue::queue_items(self.rb_in);
                proof {
                    assert(rem.len() >= 2);
                    assert(rem[0] == at_entry[2 * j]);
                    assert(rem.subrange(1, rem.len() as int)[0] == at_entry[2 * j + 1]);
                }
                let a = match queue::queue_pop(&mut self.rb_in) {
                    Some(v) => v,
                    None => 0,
                };
                let b = match queue::queue_pop(&mut self.rb_in) {
                    Some(v) => v,
                    None => 0,
                };
                proof {
                    assert(a == at_entry[2 * j]);
                    assert(b == at_entry[2 * j + 1]);
                    assert(queue::queue_items(self.rb_in) =~= at_entry.skip(2 * j + 2));
                }
                left.push(a);
                right.push(b);
                j += 1;
            }
            let mut ins: Vec<Vec<i32>> = Vec::new();
            ins.push(left);
            ins.push(right);
            let mut outs: Vec<Vec<i32>> = Vec::new();
            outs.push(frame::zero_frame(FRAME_SIZE));
            outs.push(frame::zero_frame(FRAME_SIZE));
            let ghost proc_pre: VoidProcessor<E> = *processor;
            let ghost outs_pre: Seq<Vec<i32>> = outs@;
            processor.process_frame(&ins, &mut outs, None, suppression, threshold, dynamic_threshold);
            proof {
                if proc_pre.channels_spec() == 2 {
                    assert(crate::processor::shape_ok(2, ins@, outs_pre));
                    assert(processor.bypass_spec() == bypass::frame_step(proc_pre.bypass_spec()));
                    if it >= 1 && old(processor).channels_spec() == 2 {
                        assert(bypass::frame_step(
                            bypass::frame_step(old(processor).bypass_spec()),
                        ) == bypass::frame_step(old(processor).bypass_spec()));
                    }
                } else {
                    assert(!crate::processor::shape_ok(
                        proc_pre.channels_spec(),
                        ins@,
                        outs_pre,
                    ));
                }
            }
            // Enqueue the processed frame, interleaved.
            let ghost out_entry = queue::queue_items(self.rb_out);
            proof {
                assert(out_entry == out_keep);
                assert(out_entry.len() <= QUEUE_CAPACITY);
            }
            let mut j: usize = 0;
            while j < FRAME_SIZE
                invariant
                    j <= FRAME_SIZE,
                    outs@.len() == 2,
                    outs@[0]@.len() == FRAME_SIZE,
                    outs@[1]@.len() == FRAME_SIZE,
                    out_entry.len() <= QUEUE_CAPACITY,
                    queue::queue_capacity(self.rb_out) == QUEUE_CAPACITY,
                    queue::queue_capacity(self.rb_in) == QUEUE_CAPACITY,
                    queue::queue_items(self.rb_in) =~= at_entry.skip(2 * FRAME_SIZE),
                    queue::queue_items(self.rb_out) == queue::enqueue_all(
                        out_entry,
                        QUEUE_CAPACITY as nat,
                        interleaved(outs@[0]@, outs@[1]@, j as nat),
                    ),
                decreases FRAME_SIZE - j,
            {
                let ghost before = interleaved(outs@[0]@, outs@[1]@, j as nat);
                let a = outs[0][j];
                let b = outs[1][j];
                queue::queue_push(&mut self.rb_out, a);
                queue::queue_push(&mut self.rb_out, b);
                proof {
                    let after = interleaved(outs@[0]@, outs@[1]@, (j + 1) as nat);
                    queue::lemma_enqueue_snoc(
                        out_entry,
                        QUEUE_CAPACITY as nat,
                        before,
                        outs@[0]@[j as int],
                    );
                    queue::lemma_enqueue_snoc(
                        out_entry,
                        QUEUE_CAPACITY as nat,
                        before.push(outs@[0]@[j as int]),
                        outs@[1]@[j as int],
                    );
                    assert(after =~= before.push(outs@[0]@[j as int]).push(outs@[1]@[j as int]));
                }
                j += 1;
            }
            proof {
                lemma_enqueue_len(
                    out_entry,
                    QUEUE_CAPACITY as nat,
                    interleaved(outs@[0]@, outs@[1]@, FRAME_SIZE as nat),
                );
                lemma_interleaved_len(outs@[0]@, outs@[1]@, FRAME_SIZE as nat);
                assert(at_entry.skip(2 * FRAME_SIZE) =~= in0.skip((it + 1) * STEREO_FRAME));
                assert((it + 1) * STEREO_FRAME <= in0.len()) by (nonlinear_arith)
                    requires
                        it * STEREO_FRAME + at_entry.len() == in0.len() + it * STEREO_FRAME
                            - it * STEREO_FRAME,
                        at_entry.len() == in0.len() - it * STEREO_FRAME,
                        at_entry.len() >= STEREO_FRAME,
                        STEREO_FRAME == 960,
                ;
                assert((it + 1) <= (in0.len() as int) / (STEREO_FRAME as int)) by (nonlinear_arith)
                    requires
                        (it + 1) * STEREO_FRAME <= in0.len(),
                        STEREO_FRAME == 960,
                ;
                if old(processor).bypass_spec() == crate::bypass::BypassState::Bypassed && old(processor).channels_spec() == 2 {
                    assert(proc_pre.bypass_spec() == crate::bypass::BypassState::Bypassed);
                    assert(outs@[0]@ == ins@[0]@);
                    assert(outs@[1]@ == ins@[1]@);
                    lemma_interleaved_matches(outs@[0]@, outs@[1]@, at_entry, FRAME_SIZE as nat);
                    assert(at_entry.subrange(0, 2 * FRAME_SIZE) =~= in0.subrange(
                        it * (STEREO_FRAME as int),
                        (it + 1) * (STEREO_FRAME as int),
                    ));
                    lemma_enqueue_concat(
                        out0,
                        QUEUE_CAPACITY as nat,
                        in0.subrange(0, it * (STEREO_FRAME as int)),
                        in0.subrange(it * (STEREO_FRAME as int), (it + 1) * (STEREO_FRAME as int)),
                    );
                    assert(in0.subrange(0, it * (STEREO_FRAME as int)) + in0.subrange(
                        it * (STEREO_FRAME as int),
                        (it + 1) * (STEREO_FRAME as int),
                    ) =~= in0.subrange(0, (it + 1) * (STEREO_FRAME as int)));
                }
                it = it + 1;
            }
        }
    }

    /// Pops processed samples as stereo pairs into the two buffers, zero-
    /// filling once the queue runs dry; a lone trailing sample stays queued.
    /// Returns the number of pairs actually delivered.
    #[verifier::rlimit(50)]
    #[verifier::spinoff_prover]
    pub fn pop_stereo(&mut self, left: &mut Vec<i32>, right: &mut Vec<i32>) -> (count: usize)
        requires
            old(self).wf(),
        ensures
            final(self).wf(),
            final(self).input_items() == old(self).input_items(),
            final(left)@.len() == old(left)@.len(),
            final(right)@.len() == old(right)@.len(),
            count == pop_budget(
                shorter(old(left)@.len() as int, old(right)@.len() as int),
                old(self).output_items().len() as int,
            ),
            final(self).output_items() == old(self).output_items().skip(2 * count),
            forall|i: int|
                0 <= i < count ==> (#[trigger] final(left)@[i]) == old(self).output_items()[2 * i],
            forall|i: int|
                0 <= i < count ==> (#[trigger] final(right)@[i]) == old(self).output_items()[2 * i
                    + 1],
            forall|i: int|
                count <= i < shorter(old(left)@.len() as int, old(right)@.len() as int) ==> (
                #[trigger] final(left)@[i]) == 0i32,
            forall|i: int|
                count <= i < shorter(old(left)@.len() as int, old(right)@.len() as int) ==> (
                #[trigger] final(right)@[i]) == 0i32,
            forall|i: int|
                shorter(old(left)@.len() as int, old(right)@.len() as int) <= i < final(left)@.len() ==> (#[trigger] final(left)@[i]) == old(left)@[i],
            forall|i: int|
                shorter(old(left)@.len() as int, old(right)@.len() as int) <= i < final(right)@.len() ==> (#[trigger] final(right)@[i]) == old(right)@[i],
    {
        let ghost out0 = old(self).output_items();
        let n = if left.len() <= right.len() {
            left.len()
        } else {
            right.len()
        };
        let mut count: usize = 0;
        let mut i: usize = 0;
        while i < n
            invariant
                i <= n,
                n <= left@.len(),
                n <= right@.len(),
                left@.len() == old(left)@.len(),
                right@.len() == old(right)@.len(),
                queue::queue_capacity(self.rb_out) == QUEUE_CAPACITY,
                self.rb_in == old(self).rb_in,
                count == if i <= (out0.len() as int) / 2 {
                    i as int
                } else {
                    (out0.len() as int) / 2
                },
                count == i || out0.len() - 2 * count < 2,
                queue::queue_items(self.rb_out) =~= out0.skip(2 * count),
                out0.len() <= QUEUE_CAPACITY,
                forall|t: int| 0 <= t < count ==> (#[trigger] left@[t]) == out0[2 * t],
                forall|t: int| 0 <= t < count ==> (#[trigger] right@[t]) == out0[2 * t + 1],
                forall|t: int| count <= t < i ==> (#[trigger] left@[t]) == 0i32,
                forall|t: int| count <= t < i ==> (#[trigger] right@[t]) == 0i32,
                forall|t: int| i <= t < left@.len() ==> (#[trigger] left@[t]) == old(left)@[t],
                forall|t: int| i <= t < right@.len() ==> (#[trigger] right@[t]) == old(right)@[t],
            decreases n - i,
        {
            if queue::queue_len(&self.rb_out) >= 2 {
                let ghost rem = queue::queue_items(self.rb_out);
                let a = match queue::queue_pop(&mut self.rb_out) {
                    Some(v) => v,
                    None => 0,
                };
                let b = match queue::queue_pop(&mut self.rb_out) {
                    Some(v) => v,
                    None => 0,
                };
                proof {
                    assert(count == i);
                    assert(rem =~= out0.skip(2 * count));
                    assert(rem[0] == out0[2 * count]);
                    assert(rem.subrange(1, rem.len() as int)[0] == out0[2 * count + 1]);
                    assert(a == out0[2 * count]);
                    assert(b == out0[2 * count + 1]);
                    assert(queue::queue_items(self.rb_out) =~= out0.skip(2 * (count + 1)));
                }
                let ghost lpre = left@;
                let ghost rpre = right@;
                left.set(i, a);
                right.set(i, b);
                proof {
                    assert forall|t: int| 0 <= t < count + 1 implies (#[trigger] left@[t]) == out0[2
                        * t] by {
                        if t < count {
                            assert(left@[t] == lpre[t]);
                            assert(lpre[t] == out0[2 * t]);
                        } else {
                            assert(left@[t] == a);
                        }
                    }
                    assert forall|t: int| 0 <= t < count + 1 implies (#[trigger] right@[t])
                        == out0[2 * t + 1] by {
                        if t < count {
                            assert(right@[t] == rpre[t]);
                            assert(rpre[t] == out0[2 * t + 1]);
                        } else {
                            assert(right@[t] == b);
                        }
                    }
                }
                count += 1;
            } else {
                let ghost lpre = left@;
                let ghost rpre = right@;
                left.set(i, 0);
                right.set(i, 0);
                proof {
                    assert forall|t: int| 0 <= t < count implies (#[trigger] left@[t]) == out0[2
                        * t] by {
                        assert(left@[t] == lpre[t]);
                        assert(lpre[t] == out0[2 * t]);
                    }
                    assert forall|t: int| 0 <= t < count implies (#[trigger] right@[t]) == out0[2
                        * t + 1] by {
                        assert(right@[t] == rpre[t]);
                        assert(rpre[t] == out0[2 * t + 1]);
                    }
                }
            }
            i += 1;
        }
        proof {
            assert(n as int == shorter(old(left)@.len() as int, old(right)@.len() as int));
            assert(count as int == pop_budget(n as int, out0.len() as int));
        }
        count
    }

    /// Pops processed samples as mono (the average of both channels),
    /// zero-filling once the queue runs dry. Returns the number of samples
    /// actually delivered.
    #[verifier::rlimit(50)]
    #[verifier::spinoff_prover]
    pub fn pop_mono(&mut self, out: &mut Vec<i32>) -> (count: usize)
        requires
            old(self).wf(),
        ensures
            final(self).wf(),
            final(self).input_items() == old(self).input_items(),
            final(out)@.len() == old(out)@.len(),
            count == pop_budget(old(out)@.len() as int, old(self).output_items().len() as int),
            final(self).output_items() == old(self).output_items().skip(2 * count),
            forall|i: int|
                0 <= i < count ==> (#[trigger] final(out)@[i]) == sdiv(
                    old(self).output_items()[2 * i] + old(self).output_items()[2 * i + 1],
                    2,
                ),
            forall|i: int|
                count <= i < old(out)@.len() ==> (#[trigger] final(out)@[i]) == 0i32,
    {
        let ghost out0 = old(self).output_items();
        let n = out.len();
        let mut count: usize = 0;
        let mut i: usize = 0;
        while i < n
            invariant
                i <= n,
                n == out@.len() == old(out)@.len(),
                queue::queue_capacity(self.rb_out) == QUEUE_CAPACITY,
                self.rb_in == old(self).rb_in,
                count == if i <= (out0.len() as int) / 2 {
                    i as int
                } else {
                    (out0.len() as int) / 2
                },
                count == i || out0.len() - 2 * count < 2,
                queue::queue_items(self.rb_out) =~= out0.skip(2 * count),
                out0.len() <= QUEUE_CAPACITY,
                forall|t: int|
                    0 <= t < count ==> (#[trigger] out@[t]) == sdiv(
                        out0[2 * t] + out0[2 * t + 1],
                        2,
                    ),
                forall|t: int| count <= t < i ==> (#[trigger] out@[t]) == 0i32,
            decreases n - i,
        {
            if queue::queue_len(&self.rb_out) >= 2 {
                let ghost rem = queue::queue_items(self.rb_out);
                let a = match queue::queue_pop(&mut self.rb_out) {
                    Some(v) => v,
                    None => 0,
                };
                let b = match queue::queue_pop(&mut self.rb_out) {
                    Some(v) => v,
                    None => 0,
                };
                proof {
                    assert(rem[0] == out0[2 * count]);
                    assert(rem.subrange(1, rem.len() as int)[0] == out0[2 * count + 1]);
                    assert(queue::queue_items(self.rb_out) =~= out0.skip(2 * (count + 1)));
                }
                let avg: i64 = crate::num::div_i64(a as i64 + b as i64, 2);
                let ghost opre = out@;
                out.set(i, avg as i32);
                proof {
                    assert forall|t: int| 0 <= t < count + 1 implies (#[trigger] out@[t]) == sdiv(
                        out0[2 * t] + out0[2 * t + 1],
                        2,
                    ) by {
                        if t < count {
                            assert(out@[t] == opre[t]);
                            assert(opre[t] == sdiv(out0[2 * t] + out0[2 * t + 1], 2));
                        } else {
                            assert(out@[t] == avg as i32);
                        }
                    }
                }
                count += 1;
            } else {
                let ghost opre = out@;
                out.set(i, 0);
                proof {
                    assert forall|t: int| 0 <= t < count implies (#[trigger] out@[t]) == sdiv(
                        out0[2 * t] + out0[2 * t + 1],
                        2,
                    ) by {
                        assert(out@[t] == opre[t]);
                        assert(opre[t] == sdiv(out0[2 * t] + out0[2 * t + 1], 2));
                    }
                }
            }
            i += 1;
        }
        count
    }
}

impl Default for FrameAdapter {
    fn default() -> (r: Self)
        ensures
            r.wf(),
            r.input_items().len() == 0,
            r.output_items().len() == 0,
    {
        Self::new()
    }
}

/// Interleaving `n` pairs yields `2 n` samples.
pub proof fn lemma_interleaved_len(l: Seq<i32>, r: Seq<i32>, n: nat)
    ensures
        interleaved(l, r, n).len() == 2 * n,
    decreases n,
{
    if n > 0 {
        lemma_interleaved_len(l, r, (n - 1) as nat);
    }
}

} // verus!
