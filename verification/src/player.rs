//! Playback core: clock anchoring, the bounded prefetch window, eviction,
//! and generation-tagged handling of background decode results.
//!
//! One scheduler tick drives, in order: the clock (`anchor_time`,
//! `apply_clock`), the buffering gate (`refresh_buffering_wait`), the render
//! decision with its amortized eviction (`frame_tick`), the prefetch
//! dispatch (`buffer_next_frames`), and the poll of outstanding decode
//! tasks (`handle_task_event`, then `clear_frame_request`).  The caller
//! performs the file reads and the floating-point time arithmetic and hands
//! the results back as plain values; speed settings and the clock anchor are
//! carried as IEEE-754 bit patterns and never interpreted here.

use vstd::prelude::*;
use crate::codec::{Frame, FrameReadError};
use crate::sequence::{frame_file_path, padded_index, LoadState, Sequence, SequenceReadError};
use crate::sequence::{is_valid_label_dir, FolderProbe};

verus! {

/// Playback waits whenever fewer than this many frames are buffered ahead.
pub const MINIMUM_BUFFERED_FRAMES: usize = 30;

/// How far ahead of the playhead the prefetch window reaches.
pub const MAX_BUFFER_RANGE: usize = 300;

/// How many decode dispatches one scheduler tick may issue.
pub const BUFFER_SLIDING_WINDOW: usize = 5;

/// Frames this far or further from the playhead are evicted.
pub const MEMORY_RANGE: usize = 500;

/// IEEE-754 bit pattern of the default sensor frame rate, ten frames per
/// second.
pub const DEFAULT_SENSOR_FPS_BITS: u64 = 0x4024000000000000;

/// IEEE-754 bit pattern of the default time scale, one.
pub const DEFAULT_TIME_SCALE_BITS: u64 = 0x3FF0000000000000;

/// The playback state: the open sequence with its generation number, the
/// playhead, the prefetch cursor, the clock anchor, and the speed settings
/// (kept as uninterpreted `f64` bit patterns).
pub struct PlayerState {
    pub start_time_bits: Option<u64>,
    pub sequence: Option<Sequence>,
    pub sequence_number: u32,
    pub wait_for_buffering: bool,
    pub actual_frame: usize,
    pub buffer_frame: usize,
    pub max_frame: usize,
    pub start_frame: usize,
    pub last_rendered_frame: usize,
    pub has_frame_request: bool,
    pub paused: bool,
    pub sensor_fps_bits: u64,
    pub time_scale_bits: u64,
}

/// The lowest index the memory window around `center` keeps resident.
pub open spec fn window_lo(center: int) -> int {
    if center >= MEMORY_RANGE {
        center - MEMORY_RANGE
    } else {
        0
    }
}

/// One past the highest index the memory window around `center` keeps
/// resident (the sum saturates at the machine limit, as the arithmetic
/// that uses it does).
pub open spec fn window_hi(center: int) -> int {
    if center + MEMORY_RANGE <= usize::MAX {
        center + MEMORY_RANGE
    } else {
        usize::MAX as int
    }
}

/// Whether slot `i` lies inside the memory window around `center`.
pub open spec fn in_memory_window(center: int, i: int) -> bool {
    window_lo(center) <= i < window_hi(center)
}

/// The playhead itself always lies inside its own memory window, so no
/// eviction pass can ever remove the frame being displayed.
pub proof fn lemma_window_keeps_playhead(center: int)
    requires
        0 <= center < usize::MAX,
    ensures
        in_memory_window(center, center),
        center - MEMORY_RANGE != center,
{
}

/// The two sequences describe the same folder layout and slot count.
pub open spec fn same_layout(pre: &Sequence, post: &Sequence) -> bool {
    &&& post.point_folder == pre.point_folder
    &&& post.label_folder == pre.label_folder
    &&& post.frame_count == pre.frame_count
    &&& post.frames@.len() == pre.frames@.len()
    &&& post.load_states@.len() == pre.load_states@.len()
}

/// `post` is `pre` after the full eviction pass of an explicit request:
/// every slot inside the memory window around `center` is untouched, every
/// slot outside it is empty.
pub open spec fn evicted_outside_window(pre: &Sequence, post: &Sequence, center: int) -> bool {
    &&& same_layout(pre, post)
    &&& forall|i: int|
        0 <= i < post.frames@.len() && in_memory_window(center, i) ==> post.slot_unchanged(pre, i)
    &&& forall|i: int|
        0 <= i < post.frames@.len() && !in_memory_window(center, i) ==> post.slot_empty(i)
}

/// `post` is `pre` after the amortized eviction of ordinary forward
/// playback: only the single slot that just fell behind the memory window
/// is emptied.
pub open spec fn evicted_behind(pre: &Sequence, post: &Sequence, center: int) -> bool {
    &&& same_layout(pre, post)
    &&& forall|i: int|
        0 <= i < post.frames@.len() && i == center - MEMORY_RANGE ==> post.slot_empty(i)
    &&& forall|i: int|
        0 <= i < post.frames@.len() && i != center - MEMORY_RANGE ==> post.slot_unchanged(pre, i)
}

impl PlayerState {
    /// The open sequence, if any, is well formed; `max_frame` is its last
    /// index; playhead, prefetch cursor and clock anchor never pass it.
    pub open spec fn wf(&self) -> bool {
        &&& (self.sequence matches Some(seq) ==> seq.wf() && self.max_frame == if seq.frame_count
            == 0 {
            0int
        } else {
            seq.frame_count - 1
        })
        &&& (self.sequence is None ==> self.max_frame == 0)
        &&& self.actual_frame <= self.max_frame
        &&& self.buffer_frame <= self.max_frame
        &&& self.start_frame <= self.max_frame
    }

    /// Everything but the sequence slots, the playhead anchors and the
    /// request flag is unchanged: generation, pause flag, speed settings,
    /// buffering gate and render marker.
    pub open spec fn same_modes(&self, pre: &PlayerState) -> bool {
        &&& self.sequence_number == pre.sequence_number
        &&& self.wait_for_buffering == pre.wait_for_buffering
        &&& self.last_rendered_frame == pre.last_rendered_frame
        &&& self.paused == pre.paused
        &&& self.sensor_fps_bits == pre.sensor_fps_bits
        &&& self.time_scale_bits == pre.time_scale_bits
    }

    pub fn is_paused(&self) -> (r: bool)
        ensures
            r == self.paused,
    {
        self.paused
    }

    pub fn get_frame(&self) -> (r: usize)
        ensures
            r == self.actual_frame,
    {
        self.actual_frame
    }

    pub fn get_buffer_frame(&self) -> (r: usize)
        ensures
            r == self.buffer_frame,
    {
        self.buffer_frame
    }

    pub fn get_max_frame(&self) -> (r: usize)
        ensures
            r == self.max_frame,
    {
        self.max_frame
    }

    pub fn get_time_scale_bits(&self) -> (r: u64)
        ensures
            r == self.time_scale_bits,
    {
        self.time_scale_bits
    }

    pub fn get_start_time_bits(&self) -> (r: Option<u64>)
        ensures
            r == self.start_time_bits,
    {
        match self.start_time_bits {
            Some(b) => Some(b),
            None => None,
        }
    }

    /// The decoded frame under the playhead, if its slot holds one.
    pub fn get_frame_content(&self) -> (r: Option<&Frame>)
        ensures
            match self.sequence {
                Some(seq) => if self.actual_frame < seq.frames@.len() && seq.frames@[
                    self.actual_frame as int] is Some {
                    r matches Some(f) && seq.frames@[self.actual_frame as int] == Some(*f)
                } else {
                    r is None
                },
                None => r is None,
            },
    {
        match &self.sequence {
            Some(seq) => {
                if self.actual_frame < seq.frames.len() {
                    match &seq.frames[self.actual_frame] {
                        Some(f) => Some(f),
                        None => None,
                    }
                } else {
                    None
                }
            },
            None => None,
        }
    }

    /// Stores the sensor frame rate; nothing else moves.
    pub fn set_sensor_fps_bits(&mut self, bits: u64)
        ensures
            *final(self) == (PlayerState { sensor_fps_bits: bits, ..*old(self) }),
    {
        self.sensor_fps_bits = bits;
    }

    /// Stores the time scale and re-anchors the clock at the current
    /// playhead, so the speed change introduces no jump.  The bits are
    /// stored uninterpreted: playback runs forward only, so callers taking
    /// the scale from operator input clamp it to be non-negative before
    /// encoding it.
    pub fn set_time_scale_bits(&mut self, bits: u64)
        ensures
            *final(self) == (PlayerState {
                time_scale_bits: bits,
                start_time_bits: None,
                start_frame: old(self).actual_frame,
                ..*old(self)
            }),
    {
        self.time_scale_bits = bits;
        self.start_time_bits = None;
        self.start_frame = self.actual_frame;
    }

    /// Forces the next tick to treat the current frame as not yet rendered.
    pub fn request_update(&mut self)
        ensures
            *final(self) == (PlayerState { last_rendered_frame: usize::MAX, ..*old(self) }),
    {
        self.last_rendered_frame = usize::MAX;
    }

    /// Pauses or resumes; either way the clock is re-anchored at the
    /// current playhead.
    pub fn toggle_play(&mut self)
        ensures
            *final(self) == (PlayerState {
                paused: !old(self).paused,
                start_frame: old(self).actual_frame,
                start_time_bits: None,
                ..*old(self)
            }),
    {
        self.paused = !self.paused;
        self.start_frame = self.actual_frame;
        self.start_time_bits = None;
    }

    /// Resumes playback, re-anchoring the clock at the current playhead.
    pub fn play(&mut self)
        ensures
            *final(self) == (PlayerState {
                paused: false,
                start_frame: old(self).actual_frame,
                start_time_bits: None,
                ..*old(self)
            }),
    {
        self.paused = false;
        self.start_frame = self.actual_frame;
        self.start_time_bits = None;
    }

    /// Pauses playback; the playhead stays where it is.
    pub fn pause(&mut self)
        ensures
            *final(self) == (PlayerState { paused: true, ..*old(self) }),
    {
        self.paused = true;
    }

    /// Anchors the clock at `now_bits` if it has no anchor yet.  While
    /// paused or waiting for buffering the clock is not evaluated, so the
    /// anchor does not move either: it will be re-taken on the first
    /// running tick.
    pub fn anchor_time(&mut self, now_bits: u64)
        ensures
            old(self).paused || old(self).wait_for_buffering ==> *final(self) == *old(self),
            !old(self).paused && !old(self).wait_for_buffering ==> *final(self) == (PlayerState {
                start_time_bits: Some(
                    match old(self).start_time_bits {
                        Some(b) => b,
                        None => now_bits,
                    },
                ),
                ..*old(self)
            }),
    {
        if !self.paused && !self.wait_for_buffering {
            if self.start_time_bits.is_none() {
                self.start_time_bits = Some(now_bits);
            }
        }
    }

    /// Moves the playhead `advance` frames past the clock anchor, clamped
    /// to the last frame.  `advance` is the whole number of sensor frames
    /// the scaled elapsed time spans; the caller computes it from the
    /// anchor and the speed settings.  While paused or waiting for
    /// buffering the clock is not evaluated: the playhead stays where it
    /// is and moves only through explicit seeks.
    pub fn apply_clock(&mut self, advance: usize)
        requires
            old(self).wf(),
        ensures
            final(self).wf(),
            old(self).paused || old(self).wait_for_buffering ==> *final(self) == *old(self),
            !old(self).paused && !old(self).wait_for_buffering ==> {
                &&& *final(self) == (PlayerState {
                    actual_frame: final(self).actual_frame,
                    ..*old(self)
                })
                &&& final(self).actual_frame == if old(self).start_frame + advance <= old(
                    self,
                ).max_frame {
                    (old(self).start_frame + advance) as usize
                } else {
                    old(self).max_frame
                }
            },
    {
        if self.paused || self.wait_for_buffering {
            return ;
        }
        let target = self.start_frame.saturating_add(advance);
        self.actual_frame = if target < self.max_frame {
            target
        } else {
            self.max_frame
        };
    }

    /// While the buffering gate is closed, it opens once the prefetch
    /// cursor has reached the minimum buffered margin ahead of the playhead
    /// (or the end of the sequence).  An open gate stays open.
    pub fn refresh_buffering_wait(&mut self)
        ensures
            *final(self) == (PlayerState {
                wait_for_buffering: final(self).wait_for_buffering,
                ..*old(self)
            }),
            final(self).wait_for_buffering == (old(self).wait_for_buffering && old(
                self,
            ).buffer_frame < if old(self).actual_frame + MINIMUM_BUFFERED_FRAMES <= old(
                self,
            ).max_frame {
                old(self).actual_frame + MINIMUM_BUFFERED_FRAMES
            } else {
                old(self).max_frame as int
            }),
    {
        if self.wait_for_buffering {
            let margin = self.actual_frame.saturating_add(MINIMUM_BUFFERED_FRAMES);
            let gate = if margin < self.max_frame {
                margin
            } else {
                self.max_frame
            };
            self.wait_for_buffering = self.buffer_frame < gate;
        }
    }

    /// Replaces the open sequence wholesale and advances the generation:
    /// the playhead, anchors and prefetch cursor return to the start, the
    /// player pauses, and the next tick re-renders.  Results of decode
    /// tasks issued under the old generation will be discarded.
    pub fn set_sequence(&mut self, sequence: Sequence)
        requires
            old(self).wf(),
            sequence.wf(),
            old(self).sequence_number < u32::MAX,
        ensures
            *final(self) == (PlayerState {
                sequence: Some(sequence),
                max_frame: final(self).max_frame,
                sequence_number: (old(self).sequence_number + 1) as u32,
                start_frame: 0,
                actual_frame: 0,
                last_rendered_frame: usize::MAX,
                buffer_frame: 0,
                paused: true,
                ..*old(self)
            }),
            final(self).max_frame == if sequence.frame_count == 0 {
                0int
            } else {
                sequence.frame_count - 1
            },
            final(self).wf(),
    {
        self.max_frame = if sequence.frame_count == 0 {
            0
        } else {
            sequence.frame_count - 1
        };
        self.sequence_number = self.sequence_number + 1;
        self.sequence = Some(sequence);
        self.start_frame = 0;
        self.actual_frame = 0;
        self.last_rendered_frame = usize::MAX;
        self.buffer_frame = 0;
        self.paused = true;
    }

    /// Seeks to `frame` (clamped to the last frame): the playhead, the
    /// clock anchor and the prefetch cursor all move there, the pending
    /// request flag is raised so in-flight decodes will be cancelled, and
    /// one full eviction pass empties every slot outside the memory window
    /// around the new playhead.
    pub fn request_frame(&mut self, frame: usize)
        requires
            old(self).wf(),
        ensures
            final(self).wf(),
            final(self).has_frame_request,
            final(self).actual_frame == if frame <= old(self).max_frame {
                frame as int
            } else {
                old(self).max_frame as int
            },
            final(self).start_frame == final(self).actual_frame,
            final(self).buffer_frame == final(self).actual_frame,
            final(self).start_time_bits is None,
            final(self).max_frame == old(self).max_frame,
            final(self).same_modes(old(self)),
            match old(self).sequence {
                Some(pre) => final(self).sequence matches Some(post) && evicted_outside_window(
                    &pre,
                    &post,
                    final(self).actual_frame as int,
                ),
                None => final(self).sequence is None,
            },
    {
        let frame = if frame < self.max_frame {
            frame
        } else {
            self.max_frame
        };
        self.has_frame_request = true;
        self.start_frame = frame;
        self.actual_frame = frame;
        self.buffer_frame = frame;
        self.start_time_bits = None;
        self.free_memory_after_request();
    }

    /// Seeks one frame forward (clamped to the last frame).
    pub fn next_frame(&mut self)
        requires
            old(self).wf(),
        ensures
            final(self).wf(),
            final(self).has_frame_request,
            final(self).actual_frame == if old(self).actual_frame + 1 <= old(self).max_frame {
                old(self).actual_frame + 1
            } else {
                old(self).max_frame as int
            },
            final(self).start_frame == final(self).actual_frame,
            final(self).buffer_frame == final(self).actual_frame,
            final(self).start_time_bits is None,
            final(self).max_frame == old(self).max_frame,
            final(self).same_modes(old(self)),
            match old(self).sequence {
                Some(pre) => final(self).sequence matches Some(post) && evicted_outside_window(
                    &pre,
                    &post,
                    final(self).actual_frame as int,
                ),
                None => final(self).sequence is None,
            },
    {
        let target = self.actual_frame + 1;
        self.request_frame(target);
    }

    /// Seeks one frame back (stopping at the first frame).
    pub fn previous_frame(&mut self)
        requires
            old(self).wf(),
        ensures
            final(self).wf(),
            final(self).has_frame_request,
            final(self).actual_frame == if old(self).actual_frame > 0 {
                old(self).actual_frame - 1
            } else {
                0int
            },
            final(self).start_frame == final(self).actual_frame,
            final(self).buffer_frame == final(self).actual_frame,
            final(self).start_time_bits is None,
            final(self).max_frame == old(self).max_frame,
            final(self).same_modes(old(self)),
            match old(self).sequence {
                Some(pre) => final(self).sequence matches Some(post) && evicted_outside_window(
                    &pre,
                    &post,
                    final(self).actual_frame as int,
                ),
                None => final(self).sequence is None,
            },
    {
        let target = self.actual_frame.saturating_sub(1);
        self.request_frame(target);
    }

    /// The one-shot eviction pass of an explicit request: every slot
    /// outside the memory window around the playhead is emptied.
    fn free_memory_after_request(&mut self)
        requires
            old(self).wf(),
        ensures
            final(self).wf(),
            *final(self) == (PlayerState { sequence: final(self).sequence, ..*old(self) }),
            match old(self).sequence {
                Some(pre) => final(self).sequence matches Some(post) && evicted_outside_window(
                    &pre,
                    &post,
                    old(self).actual_frame as int,
                ),
                None => final(self).sequence is None,
            },
    {
        let lo = self.actual_frame.saturating_sub(MEMORY_RANGE);
        let hi = self.actual_frame.saturating_add(MEMORY_RANGE);
        match &mut self.sequence {
            Some(seq) => {
                seq.evict_outside(lo, hi);
            },
            None => {},
        }
    }
}

/// What became of one polled decode task.
#[derive(PartialEq, Eq, Structural, Debug, Clone, Copy)]
pub enum TaskDisposition {
    /// The task belongs to a replaced sequence; its result is dropped.
    DiscardStale,
    /// The decoded frame was stored and its slot marked loaded.
    Stored,
    /// The decode failed; the slot returns to not-requested for a later
    /// retry.
    Failed,
    /// A seek is pending and the task had not completed: the handle is
    /// dropped and the slot returns to not-requested.
    Cancelled,
    /// The task is still running and nothing is pending against it.
    StillPending,
}

/// `post` is `pre` after the label folder was replaced by `label`: with a
/// sequence open, every slot empties, the next tick re-renders, and a seek
/// to the current playhead is pending; with none, nothing changes.
pub open spec fn labels_replaced(
    pre: &PlayerState,
    post: &PlayerState,
    label: Option<String>,
) -> bool {
    match pre.sequence {
        None => *post == *pre,
        Some(pre_seq) => {
            &&& post.sequence matches Some(post_seq) && {
                &&& post_seq.point_folder == pre_seq.point_folder
                &&& post_seq.frame_count == pre_seq.frame_count
                &&& post_seq.frames@.len() == pre_seq.frames@.len()
                &&& post_seq.load_states@.len() == pre_seq.load_states@.len()
                &&& post_seq.label_folder == label
                &&& forall|i: int| 0 <= i < post_seq.frames@.len() ==> post_seq.slot_empty(i)
            }
            &&& post.last_rendered_frame == usize::MAX
            &&& post.has_frame_request
            &&& post.actual_frame == pre.actual_frame
            &&& post.start_frame == pre.actual_frame
            &&& post.buffer_frame == pre.actual_frame
            &&& post.start_time_bits is None
            &&& post.sequence_number == pre.sequence_number
            &&& post.paused == pre.paused
            &&& post.wait_for_buffering == pre.wait_for_buffering
            &&& post.max_frame == pre.max_frame
            &&& post.sensor_fps_bits == pre.sensor_fps_bits
            &&& post.time_scale_bits == pre.time_scale_bits
        },
    }
}

impl PlayerState {
    /// Attaches `path` as the label folder, provided the probe of that
    /// folder shows exactly one label file per frame of the open range.
    /// On success every slot is cleared for re-decode with labels; any
    /// mismatch is reported and the player is left untouched.
    pub fn try_set_labels(&mut self, path: String, probe: &FolderProbe) -> (r: Result<
        (),
        SequenceReadError,
    >)
        requires
            old(self).wf(),
        ensures
            final(self).wf(),
            match probe {
                FolderProbe::Missing => r matches Err(SequenceReadError::FolderDontExist)
                    && *final(self) == *old(self),
                FolderProbe::Unreadable(m) => (r matches Err(SequenceReadError::ReadFolder(msg))
                    && msg@ == m@ && *final(self) == *old(self)),
                FolderProbe::Files(names) => {
                    let c = crate::sequence::count_with_extension(names@, "label"@);
                    if c == 0 {
                        r matches Err(SequenceReadError::MissingFilesWithExtension(e)) && e@
                            == "label"@ && *final(self) == *old(self)
                    } else if c == old(self).max_frame + 1 {
                        r is Ok && labels_replaced(old(self), final(self), Some(path))
                    } else {
                        r matches Err(SequenceReadError::LabelFilesCountMismatch {
                            expected,
                            received,
                        }) && expected == old(self).max_frame + 1 && received == c && *final(self)
                            == *old(self)
                    }
                },
            },
    {
        let expected = self.max_frame + 1;
        match is_valid_label_dir(probe, expected) {
            Ok(()) => {},
            Err(e) => {
                return Err(e);
            },
        }
        self.set_label_intern(Some(path));
        Ok(())
    }

    /// Detaches the label folder; every slot is cleared so the frames are
    /// re-decoded without labels.
    pub fn discard_labels(&mut self)
        requires
            old(self).wf(),
        ensures
            final(self).wf(),
            labels_replaced(old(self), final(self), None),
    {
        self.set_label_intern(None);
    }

    fn set_label_intern(&mut self, label: Option<String>)
        requires
            old(self).wf(),
        ensures
            final(self).wf(),
            labels_replaced(old(self), final(self), label),
    {
        if self.sequence.is_some() {
            match &mut self.sequence {
                Some(seq) => {
                    seq.label_folder = label;
                    seq.evict_outside(0, 0);
                },
                None => {},
            }
            self.last_rendered_frame = usize::MAX;
            let ghost mid = *self;
            let here = self.actual_frame;
            self.request_frame(here);
            proof {
                let mid_seq = mid.sequence->0;
                let post_seq = self.sequence->0;
                assert forall|i: int| 0 <= i < post_seq.frames@.len() implies post_seq.slot_empty(
                    i,
                ) by {
                    assert(mid_seq.slot_empty(i));
                    if in_memory_window(self.actual_frame as int, i) {
                        assert(post_seq.slot_unchanged(&mid_seq, i));
                    } else {
                        assert(post_seq.slot_empty(i));
                    }
                }
            }
        }
    }

    /// One render decision: reports the playhead's frame for display when
    /// its slot is loaded and it is not the frame already shown; an
    /// unloaded slot closes the buffering gate and drops the clock anchor.
    /// Either way, whenever the playhead has moved, the one slot that fell
    /// behind the memory window is evicted.
    pub fn frame_tick(&mut self) -> (r: Option<usize>)
        requires
            old(self).wf(),
        ensures
            final(self).wf(),
            old(self).last_rendered_frame == old(self).actual_frame ==> (r is None && *final(self)
                == *old(self)),
            old(self).last_rendered_frame != old(self).actual_frame && old(self).sequence is None
                ==> (r is None && *final(self) == *old(self)),
            match old(self).sequence {
                None => true,
                Some(pre_seq) => old(self).last_rendered_frame != old(self).actual_frame ==> {
                    let loaded = old(self).actual_frame < pre_seq.frames@.len()
                        && pre_seq.frames@[old(self).actual_frame as int] is Some;
                &&& (final(self).sequence matches Some(post_seq) && evicted_behind(
                    &pre_seq,
                    &post_seq,
                    old(self).actual_frame as int,
                ))
                &&& (loaded ==> r == Some(old(self).actual_frame) && *final(self) == (PlayerState {
                    last_rendered_frame: old(self).actual_frame,
                    sequence: final(self).sequence,
                    ..*old(self)
                }))
                &&& (!loaded ==> r is None && *final(self) == (PlayerState {
                    wait_for_buffering: true,
                    start_time_bits: None,
                    sequence: final(self).sequence,
                    ..*old(self)
                }))
                },
            },
    {
        if self.last_rendered_frame == self.actual_frame {
            return None;
        }
        if self.sequence.is_none() {
            return None;
        }
        let actual = self.actual_frame;
        let loaded = match &self.sequence {
            Some(seq) => actual < seq.frames.len() && seq.frames[actual].is_some(),
            None => false,
        };
        let r = if loaded {
            self.last_rendered_frame = actual;
            Some(actual)
        } else {
            self.wait_for_buffering = true;
            self.start_time_bits = None;
            None
        };
        if actual >= MEMORY_RANGE {
            let behind = actual - MEMORY_RANGE;
            match &mut self.sequence {
                Some(seq) => {
                    seq.evict_at(behind);
                },
                None => {},
            }
        }
        r
    }

    /// Handles what one poll of an outstanding decode task found.
    /// `outcome` is the task's result if it has completed, `None` while it
    /// still runs.  A task from a replaced sequence is discarded whole; a
    /// still-running task is cancelled when a seek is pending.  The caller
    /// drops the task handle except on `StillPending`.
    pub fn handle_task_event(
        &mut self,
        generation: u32,
        frame_number: usize,
        outcome: Option<Result<Frame, FrameReadError>>,
    ) -> (r: TaskDisposition)
        requires
            old(self).wf(),
            match old(self).sequence {
                None => true,
                Some(pre_seq) => generation == old(self).sequence_number ==> frame_number
                    < pre_seq.frame_count,
            },
        ensures
            final(self).wf(),
            match old(self).sequence {
                None => r == TaskDisposition::DiscardStale && *final(self) == *old(self),
                Some(pre_seq) => {
                    if generation != old(self).sequence_number {
                        r == TaskDisposition::DiscardStale && *final(self) == *old(self)
                    } else {
                        match outcome {
                            Some(Ok(frame)) => r == TaskDisposition::Stored && slot_written(
                                old(self),
                                final(self),
                                frame_number as int,
                                Some(frame),
                                LoadState::Loaded,
                            ),
                            Some(Err(e)) => r == TaskDisposition::Failed && slot_written(
                                old(self),
                                final(self),
                                frame_number as int,
                                None,
                                LoadState::NotRequested,
                            ),
                            None => {
                                if old(self).has_frame_request {
                                    r == TaskDisposition::Cancelled && slot_written(
                                        old(self),
                                        final(self),
                                        frame_number as int,
                                        None,
                                        LoadState::NotRequested,
                                    )
                                } else {
                                    r == TaskDisposition::StillPending && *final(self) == *old(
                                        self,
                                    )
                                }
                            },
                        }
                    }
                },
            },
    {
        let generation_matches = generation == self.sequence_number;
        let pending_request = self.has_frame_request;
        match &mut self.sequence {
            None => TaskDisposition::DiscardStale,
            Some(seq) => {
                if !generation_matches {
                    return TaskDisposition::DiscardStale;
                }
                match outcome {
                    Some(Ok(frame)) => {
                        seq.frames.set(frame_number, Some(frame));
                        seq.load_states.set(frame_number, LoadState::Loaded);
                        TaskDisposition::Stored
                    },
                    Some(Err(_)) => {
                        seq.frames.set(frame_number, None);
                        seq.load_states.set(frame_number, LoadState::NotRequested);
                        TaskDisposition::Failed
                    },
                    None => {
                        if pending_request {
                            seq.frames.set(frame_number, None);
                            seq.load_states.set(frame_number, LoadState::NotRequested);
                            TaskDisposition::Cancelled
                        } else {
                            TaskDisposition::StillPending
                        }
                    },
                }
            },
        }
    }

    /// Ends one poll pass: a pending seek, once every outstanding task has
    /// seen it, is acknowledged by pulling the prefetch cursor back to the
    /// playhead.
    pub fn clear_frame_request(&mut self)
        requires
            old(self).wf(),
        ensures
            final(self).wf(),
            *final(self) == (PlayerState {
                has_frame_request: false,
                buffer_frame: if old(self).has_frame_request {
                    old(self).actual_frame
                } else {
                    old(self).buffer_frame
                },
                ..*old(self)
            }),
    {
        if self.has_frame_request {
            self.has_frame_request = false;
            self.buffer_frame = self.actual_frame;
        }
    }

    /// One prefetch tick.  When the prefetch cursor has reached its target
    /// (the look-ahead range past the playhead, clipped to the last frame),
    /// nothing happens.  Otherwise the cursor skips over the contiguous
    /// loaded run ahead of it, and from where that run ends, up to one
    /// batch of slots is examined: every slot still not requested is marked
    /// requested and a decode dispatch for it is returned, tagged with the
    /// current generation and carrying the conventional file paths.
    pub fn buffer_next_frames(&mut self) -> (r: Vec<DecodeRequest>)
        requires
            old(self).wf(),
        ensures
            final(self).wf(),
            r@.len() <= BUFFER_SLIDING_WINDOW,
            match old(self).sequence {
                None => *final(self) == *old(self) && r@.len() == 0,
                Some(pre_seq) => {
                    let mb = max_buffer_frame(old(self));
                    if old(self).buffer_frame == mb {
                        *final(self) == *old(self) && r@.len() == 0
                    } else {
                        let pos = scan_end(pre_seq.load_states@, old(self).buffer_frame as int, mb);
                        let end = dispatch_end(pos, pre_seq.frame_count as int);
                        &&& final(self).sequence matches Some(post_seq) && {
                            &&& post_seq.point_folder == pre_seq.point_folder
                            &&& post_seq.label_folder == pre_seq.label_folder
                            &&& post_seq.frame_count == pre_seq.frame_count
                            &&& post_seq.frames@ == pre_seq.frames@
                            &&& post_seq.load_states@.len() == pre_seq.load_states@.len()
                            &&& forall|j: int|
                                0 <= j < pre_seq.frame_count && pos <= j < end
                                    && pre_seq.load_states@[j] == LoadState::NotRequested
                                    ==> post_seq.load_states@[j] == LoadState::Requested
                            &&& forall|j: int|
                                0 <= j < pre_seq.frame_count && !(pos <= j < end
                                    && pre_seq.load_states@[j] == LoadState::NotRequested)
                                    ==> post_seq.load_states@[j] == pre_seq.load_states@[j]
                        }
                        &&& *final(self) == (PlayerState {
                            buffer_frame: final(self).buffer_frame,
                            sequence: final(self).sequence,
                            ..*old(self)
                        })
                        &&& final(self).buffer_frame == if pos > old(self).buffer_frame {
                            pos - 1
                        } else {
                            old(self).buffer_frame as int
                        }
                        &&& forall|k: int|
                            0 <= k < r@.len() ==> request_well_formed(
                                #[trigger] r@[k],
                                &pre_seq,
                                old(self).sequence_number,
                            ) && pos <= r@[k].frame_number < end && pre_seq.load_states@[r@[
                            k].frame_number as int] == LoadState::NotRequested
                        &&& forall|j: int|
                            pos <= j < end && pre_seq.load_states@[j] == LoadState::NotRequested
                                ==> exists|k: int|
                                0 <= k < r@.len() && (#[trigger] r@[k]).frame_number == j
                        &&& forall|k1: int, k2: int|
                            0 <= k1 < k2 < r@.len() ==> r@[k1].frame_number < r@[k2].frame_number
                    }
                },
            },
    {
        let max_buffer: usize = {
            let cap = self.actual_frame.saturating_add(MAX_BUFFER_RANGE);
            if cap < self.max_frame {
                cap
            } else {
                self.max_frame
            }
        };
        if self.buffer_frame == max_buffer {
            return Vec::new();
        }
        let generation = self.sequence_number;
        let start = self.buffer_frame;
        let (pos, requests) = match &mut self.sequence {
            Some(seq_ref) => dispatch_window(seq_ref, start, max_buffer, generation),
            None => (start, Vec::new()),
        };
        if pos > start {
            self.buffer_frame = pos - 1;
        }
        requests
    }
}

/// One decode dispatch the window manager decided on: which frame, under
/// which generation, and the full on-disk paths to read.
pub struct DecodeRequest {
    pub frame_number: usize,
    pub generation: u32,
    pub points_path: String,
    pub labels_path: Option<String>,
}

/// The request carries the given generation and the conventional paths of
/// its frame inside the sequence's folders: a labels path exactly when a
/// label folder is configured.
pub open spec fn request_well_formed(
    req: DecodeRequest,
    seq_pre: &Sequence,
    generation: u32,
) -> bool {
    &&& req.generation == generation
    &&& req.points_path@ == seq_pre.point_folder@ + "/"@ + padded_index(req.frame_number as nat)
        + "."@ + "bin"@
    &&& match seq_pre.label_folder {
        Some(lf) => req.labels_path matches Some(lp) && lp@ == lf@ + "/"@ + padded_index(
            req.frame_number as nat,
        ) + "."@ + "label"@,
        None => req.labels_path == Option::<String>::None,
    }
}

/// Where the scan from `start` stops: the first index at which the slot is
/// not a loaded one below `bound` (or the end of the states).
pub open spec fn scan_end(states: Seq<LoadState>, start: int, bound: int) -> int
    decreases states.len() - start,
{
    if !(0 <= start < states.len()) {
        start
    } else if states[start] == LoadState::Loaded && start < bound {
        scan_end(states, start + 1, bound)
    } else {
        start
    }
}

/// One past the last slot the dispatch batch from `pos` examines: at most
/// the sliding-window size, clipped to the slot count.
pub open spec fn dispatch_end(pos: int, count: int) -> int {
    if pos + BUFFER_SLIDING_WINDOW <= count {
        pos + BUFFER_SLIDING_WINDOW
    } else {
        count
    }
}

/// The largest prefetch target: the look-ahead range past the playhead,
/// clipped to the last frame.
pub open spec fn max_buffer_frame(p: &PlayerState) -> int {
    if p.actual_frame + MAX_BUFFER_RANGE <= p.max_frame {
        p.actual_frame + MAX_BUFFER_RANGE
    } else {
        p.max_frame as int
    }
}

/// Skips the loaded run from `start` (staying below `max_buffer`), then
/// walks up to one batch of slots from there, marking each not-yet-requested
/// one as requested and emitting its decode dispatch.
fn dispatch_window(
    seq: &mut Sequence,
    start: usize,
    max_buffer: usize,
    generation: u32,
) -> (res: (usize, Vec<DecodeRequest>))
    requires
        old(seq).wf(),
        start < old(seq).frame_count,
        max_buffer < old(seq).frame_count,
    ensures
        final(seq).wf(),
        final(seq).point_folder == old(seq).point_folder,
        final(seq).label_folder == old(seq).label_folder,
        final(seq).frame_count == old(seq).frame_count,
        final(seq).frames@ == old(seq).frames@,
        final(seq).load_states@.len() == old(seq).load_states@.len(),
        res.0 == scan_end(old(seq).load_states@, start as int, max_buffer as int),
        start <= res.0 <= old(seq).frame_count,
        ({
            let pos = res.0 as int;
            let end = dispatch_end(pos, old(seq).frame_count as int);
            &&& forall|j: int|
                0 <= j < old(seq).frame_count && pos <= j < end && old(seq).load_states@[j]
                    == LoadState::NotRequested ==> final(seq).load_states@[j]
                    == LoadState::Requested
            &&& forall|j: int|
                0 <= j < old(seq).frame_count && !(pos <= j < end && old(seq).load_states@[j]
                    == LoadState::NotRequested) ==> final(seq).load_states@[j] == old(
                    seq,
                ).load_states@[j]
            &&& res.1@.len() <= BUFFER_SLIDING_WINDOW
            &&& forall|k: int|
                0 <= k < res.1@.len() ==> request_well_formed(#[trigger] res.1@[k], old(seq), generation)
                    && pos <= res.1@[k].frame_number < end && old(seq).load_states@[res.1@[
                    k].frame_number as int] == LoadState::NotRequested
            &&& forall|j: int|
                pos <= j < end && old(seq).load_states@[j] == LoadState::NotRequested
                    ==> exists|k: int|
                    0 <= k < res.1@.len() && (#[trigger] res.1@[k]).frame_number == j
            &&& forall|k1: int, k2: int|
                0 <= k1 < k2 < res.1@.len() ==> res.1@[k1].frame_number < res.1@[
                    k2].frame_number
        }),
{
    let count: usize = seq.load_states.len();
    let ghost states0 = seq.load_states@;
    let mut pos: usize = start;
    while pos < count && seq.load_states[pos] == LoadState::Loaded && pos < max_buffer
        invariant
            start <= pos <= count,
            count == seq.load_states@.len(),
            *seq == *old(seq),
            scan_end(states0, start as int, max_buffer as int) == scan_end(
                states0,
                pos as int,
                max_buffer as int,
            ),
            states0 == seq.load_states@,
        decreases count - pos,
    {
        proof {
            assert(scan_end(states0, pos as int, max_buffer as int) == scan_end(
                states0,
                pos + 1,
                max_buffer as int,
            ));
        }
        pos = pos + 1;
    }
    proof {
        assert(scan_end(states0, pos as int, max_buffer as int) == pos);
    }
    let end: usize = {
        let cap = pos.saturating_add(BUFFER_SLIDING_WINDOW);
        if cap < count {
            cap
        } else {
            count
        }
    };
    let mut requests: Vec<DecodeRequest> = Vec::new();
    let mut j: usize = pos;
    while j < end
        invariant
            pos <= j <= end,
            end == dispatch_end(pos as int, count as int),
            count == old(seq).frame_count,
            count == seq.load_states@.len(),
            seq.wf(),
            seq.point_folder == old(seq).point_folder,
            seq.label_folder == old(seq).label_folder,
            seq.frame_count == old(seq).frame_count,
            seq.frames@ == old(seq).frames@,
            states0 == old(seq).load_states@,
            forall|m: int|
                0 <= m < count && pos <= m < j && states0[m] == LoadState::NotRequested
                    ==> seq.load_states@[m] == LoadState::Requested,
            forall|m: int|
                0 <= m < count && !(pos <= m < j && states0[m] == LoadState::NotRequested)
                    ==> seq.load_states@[m] == states0[m],
            requests@.len() <= j - pos,
            forall|k: int|
                0 <= k < requests@.len() ==> request_well_formed(
                    #[trigger] requests@[k],
                    old(seq),
                    generation,
                ) && pos <= requests@[k].frame_number < j && states0[requests@[
                    k].frame_number as int] == LoadState::NotRequested,
            forall|m: int|
                pos <= m < j && states0[m] == LoadState::NotRequested ==> exists|k: int|
                    0 <= k < requests@.len() && (#[trigger] requests@[k]).frame_number == m,
            forall|k1: int, k2: int|
                0 <= k1 < k2 < requests@.len() ==> requests@[k1].frame_number < requests@[
                    k2].frame_number,
        decreases end - j,
    {
        let ghost reqs0 = requests@;
        if seq.load_states[j] == LoadState::NotRequested {
            let points_path = frame_file_path(seq.point_folder.as_str(), j, "bin");
            let labels_path = match &seq.label_folder {
                Some(lf) => Some(frame_file_path(lf.as_str(), j, "label")),
                None => None,
            };
            requests.push(DecodeRequest { frame_number: j, generation, points_path, labels_path });
            seq.load_states.set(j, LoadState::Requested);
        }
        proof {
            assert forall|m: int|
                pos <= m < j + 1 && states0[m] == LoadState::NotRequested implies exists|k: int|
                    0 <= k < requests@.len() && (#[trigger] requests@[k]).frame_number == m by {
                if m < j {
                    let k = choose|k: int|
                        0 <= k < reqs0.len() && (#[trigger] reqs0[k]).frame_number == m;
                    assert(requests@[k].frame_number == m);
                } else {
                    assert(requests@[requests@.len() - 1].frame_number == m);
                }
            }
        }
        j = j + 1;
    }
    (pos, requests)
}

/// `post` is `pre` with `value` and `state` written into the sequence slot
/// at `i`; everything else, in the sequence and around it, is unchanged.
pub open spec fn slot_written(
    pre: &PlayerState,
    post: &PlayerState,
    i: int,
    value: Option<Frame>,
    state: LoadState,
) -> bool {
    &&& pre.sequence matches Some(pre_seq) && post.sequence matches Some(post_seq) && {
        &&& post_seq.point_folder == pre_seq.point_folder
        &&& post_seq.label_folder == pre_seq.label_folder
        &&& post_seq.frame_count == pre_seq.frame_count
        &&& post_seq.frames@ == pre_seq.frames@.update(i, value)
        &&& post_seq.load_states@ == pre_seq.load_states@.update(i, state)
    }
    &&& *post == (PlayerState { sequence: post.sequence, ..*pre })
}

impl Default for PlayerState {
    /// The idle player: no sequence, generation zero, paused at frame
    /// zero, default speed settings, and no frame rendered yet.
    fn default() -> (r: PlayerState)
        ensures
            r == (PlayerState {
                start_time_bits: None,
                sequence: None,
                sequence_number: 0,
                wait_for_buffering: false,
                actual_frame: 0,
                buffer_frame: 0,
                max_frame: 0,
                start_frame: 0,
                last_rendered_frame: usize::MAX,
                has_frame_request: false,
                paused: true,
                sensor_fps_bits: DEFAULT_SENSOR_FPS_BITS,
                time_scale_bits: DEFAULT_TIME_SCALE_BITS,
            }),
            r.wf(),
    {
        PlayerState {
            start_time_bits: None,
            sequence: None,
            sequence_number: 0,
            wait_for_buffering: false,
            actual_frame: 0,
            buffer_frame: 0,
            max_frame: 0,
            start_frame: 0,
            last_rendered_frame: usize::MAX,
            has_frame_request: false,
            paused: true,
            sensor_fps_bits: DEFAULT_SENSOR_FPS_BITS,
            time_scale_bits: DEFAULT_TIME_SCALE_BITS,
        }
    }
}

} // verus!
