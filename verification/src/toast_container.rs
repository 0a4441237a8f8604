//! Per-toast lifecycle and swipe recognition.
//!
//! A [`ToastLifecycle`] walks one toast from mount through removal to purge
//! and turns raw pointer movement into a dismiss decision. The host owns the
//! clocks and timers: each function takes the timestamps, coordinates and
//! offsets it needs as plain values and returns what the host must do next
//! (drop the height record and schedule the purge when a deletion starts;
//! remove the toast from the stack when the purge fires).

use vstd::prelude::*;
use vstd::math::{abs, max, min};

use crate::toast_id::{decoded_bytes, is_valid_encoding, ToastId};
use crate::types::{
    decode_message, dismiss_payload, has_dismiss_prefix, ToastOptions, ToasterPosition,
};

verus! {

/// Delay in milliseconds between the start of the removal animation and the
/// purge of the entry.
pub const REMOVE_DELAY_MS: u64 = 200;

/// Drag distance in pixels that commits a swipe on release.
pub const SWIPE_COMMIT_PX: i64 = 20;

/// Pixels a touch pointer must travel before a drag counts.
pub const TOUCH_START_THRESHOLD_PX: i64 = 10;

/// Pixels a mouse-class pointer must travel before a drag counts.
pub const MOUSE_START_THRESHOLD_PX: i64 = 2;

/// Lifecycle state of one toast: mount, removal and purge flags, the swipe
/// recognizer's state, and the resolved per-toast configuration.
#[derive(Debug)]
pub struct ToastLifecycle {
    /// Id of the toast this lifecycle belongs to.
    pub id: ToastId,
    /// Whether the toast reacts to swipes and pointer interaction.
    pub dismissible: bool,
    /// The resolved position (toast override or stack default).
    pub position: ToasterPosition,
    /// The resolved auto-dismiss duration in milliseconds.
    pub duration_ms: u64,
    /// The toast's element has rendered.
    pub mounted: bool,
    /// The toast is playing its removal animation.
    pub removed: bool,
    /// The toast's entry has been purged from the stack.
    pub purged: bool,
    /// A drag is in progress.
    pub swiping: bool,
    /// A drag exceeded the dismiss threshold.
    pub swipe_out: bool,
    /// The height measured when the toast first rendered, in pixels.
    pub initial_height: u32,
    /// The stacking offset captured when removal started, for the exit
    /// animation.
    pub offset_before_remove: u64,
    /// Signed drag offset along the dismiss axis, in pixels.
    pub swipe_amount: i64,
    /// Pointer position at the start of the current drag.
    pub pointer_start: Option<(i32, i32)>,
    /// Timestamp of the current drag's start, in milliseconds.
    pub drag_start_time: Option<u64>,
    /// An auto-dismiss timer is pending with the host.
    pub auto_timer_active: bool,
}

/// The swipe offset a lifecycle can hold: it is always a difference of two
/// pointer coordinates, or zero.
pub open spec fn swipe_amount_in_range(s: ToastLifecycle) -> bool {
    -0x1_0000_0000 <= s.swipe_amount <= 0x1_0000_0000
}

/// The removal transition: a toast not yet removing starts its removal and
/// remembers its current offset for the exit animation; a toast already
/// removing is left untouched.
pub open spec fn spec_delete(s: ToastLifecycle, current_offset: u64) -> ToastLifecycle {
    if s.removed {
        s
    } else {
        ToastLifecycle { removed: true, offset_before_remove: current_offset, ..s }
    }
}

/// The drag-tracking transition for one pointer movement; see
/// [`ToastLifecycle::on_pointer_move`].
pub open spec fn spec_pointer_move(
    s: ToastLifecycle,
    x: i32,
    y: i32,
    touch_pointer: bool,
) -> ToastLifecycle {
    match s.pointer_start {
        None => s,
        Some(start) => {
            if !s.dismissible {
                s
            } else {
                let dy = y - start.1;
                let dx = x - start.0;
                let clamped = if s.position.spec_is_top() {
                    min(0, dy)
                } else {
                    max(0, dy)
                };
                let threshold = if touch_pointer {
                    TOUCH_START_THRESHOLD_PX as int
                } else {
                    MOUSE_START_THRESHOLD_PX as int
                };
                if abs(clamped) > threshold {
                    ToastLifecycle { swipe_amount: dy as i64, ..s }
                } else if abs(dx) > threshold {
                    ToastLifecycle { pointer_start: None, ..s }
                } else {
                    s
                }
            }
        },
    }
}

/// Whether releasing the pointer at `now_ms` commits the drag as a dismiss:
/// the drag travelled at least 20 px, or its velocity exceeded 0.11 px/ms
/// (stated without division: 100 times the distance exceeds 11 times the
/// elapsed milliseconds).
pub open spec fn spec_swipe_commit(s: ToastLifecycle, now_ms: u64) -> bool {
    let start = match s.drag_start_time {
        Some(t) => t as int,
        None => 0,
    };
    let elapsed = now_ms - start;
    abs(s.swipe_amount as int) >= SWIPE_COMMIT_PX || abs(s.swipe_amount as int) * 100 > 11
        * elapsed
}

impl ToastLifecycle {
    /// A fresh lifecycle for the given toast: nothing mounted or removed
    /// yet, no drag, and the duration and position resolved against the
    /// stack defaults.
    pub fn new(
        id: ToastId,
        options: &ToastOptions,
        default_duration_ms: u64,
        default_position: ToasterPosition,
    ) -> (r: ToastLifecycle)
        ensures
            r.id@ == id@,
            r.dismissible == options.dismissible,
            r.duration_ms == (match options.duration_ms {
                Some(d) => d,
                None => default_duration_ms,
            }),
            r.position == (match options.position {
                Some(p) => p,
                None => default_position,
            }),
            !r.mounted,
            !r.removed,
            !r.purged,
            !r.swiping,
            !r.swipe_out,
            r.initial_height == 0,
            r.offset_before_remove == 0,
            r.swipe_amount == 0,
            r.pointer_start is None,
            r.drag_start_time is None,
            !r.auto_timer_active,
            swipe_amount_in_range(r),
    {
        let duration_ms = match options.duration_ms {
            Some(d) => d,
            None => default_duration_ms,
        };
        let position = match options.position {
            Some(p) => p,
            None => default_position,
        };
        ToastLifecycle {
            id,
            dismissible: options.dismissible,
            position,
            duration_ms,
            mounted: false,
            removed: false,
            purged: false,
            swiping: false,
            swipe_out: false,
            initial_height: 0,
            offset_before_remove: 0,
            swipe_amount: 0,
            pointer_start: None,
            drag_start_time: None,
            auto_timer_active: false,
        }
    }

    /// The toast's element has rendered: the lifecycle leaves its
    /// initializing state.
    pub fn on_mount(&mut self)
        ensures
            *final(self) == (ToastLifecycle { mounted: true, ..*old(self) }),
    {
        self.mounted = true;
    }

    /// The host measured the toast's rendered element; it must also register
    /// the same height with the geometry tracker.
    pub fn on_measured(&mut self, height: u32)
        ensures
            *final(self) == (ToastLifecycle { initial_height: height, ..*old(self) }),
    {
        self.initial_height = height;
    }

    /// The host scheduled the auto-dismiss timer for
    /// [`ToastLifecycle::duration_ms`] milliseconds.
    pub fn on_auto_timer_scheduled(&mut self)
        ensures
            *final(self) == (ToastLifecycle { auto_timer_active: true, ..*old(self) }),
    {
        self.auto_timer_active = true;
    }

    /// Starts the toast's removal, idempotently: when this returns true the
    /// host must drop the toast's height record and schedule the purge
    /// [`REMOVE_DELAY_MS`] milliseconds later; when it returns false a
    /// removal is already under way and nothing more may be scheduled.
    pub fn delete(&mut self, current_offset: u64) -> (started: bool)
        ensures
            *final(self) == spec_delete(*old(self), current_offset),
            started == !old(self).removed,
    {
        if self.removed {
            return false;
        }
        self.removed = true;
        self.offset_before_remove = current_offset;
        true
    }

    /// The auto-dismiss timer fired: the timer is spent, and the toast
    /// starts its removal unless one is already under way.
    pub fn on_auto_timeout(&mut self, current_offset: u64) -> (started: bool)
        ensures
            *final(self) == spec_delete(
                (ToastLifecycle { auto_timer_active: false, ..*old(self) }),
                current_offset,
            ),
            started == !old(self).removed,
    {
        self.auto_timer_active = false;
        self.delete(current_offset)
    }

    /// The purge timer fired: exactly when the toast was removing and not
    /// yet purged, it becomes purged, any pending auto-dismiss timer is
    /// cancelled (the host must clear it), and the host must remove the
    /// toast from the stack.
    pub fn on_purge(&mut self) -> (purge: bool)
        ensures
            purge == (old(self).removed && !old(self).purged),
            purge ==> *final(self) == (ToastLifecycle {
                purged: true,
                auto_timer_active: false,
                ..*old(self)
            }),
            !purge ==> *final(self) == *old(self),
    {
        if self.removed && !self.purged {
            self.purged = true;
            self.auto_timer_active = false;
            return true;
        }
        false
    }

    /// A dismiss-signal message arrived: when it carries the prefix, decodes,
    /// and addresses this toast's id, the toast starts its removal as
    /// [`ToastLifecycle::delete`] does; any other message is ignored.
    pub fn on_dismiss_message(&mut self, message: String, current_offset: u64) -> (started: bool)
        ensures
            ({
                let matched = has_dismiss_prefix(message@) && is_valid_encoding(
                    dismiss_payload(message@),
                ) && decoded_bytes(dismiss_payload(message@)) == old(self).id@;
                &&& matched ==> *final(self) == spec_delete(*old(self), current_offset)
                &&& matched ==> started == !old(self).removed
                &&& !matched ==> *final(self) == *old(self) && !started
            }),
    {
        match decode_message(message) {
            Some(id) => {
                if id == self.id {
                    self.delete(current_offset)
                } else {
                    false
                }
            },
            None => false,
        }
    }

    /// A pointer went down on the toast. A non-dismissible toast ignores it.
    /// Otherwise the drag clock starts and the current offset is captured;
    /// unless the pointer hit a dismiss control (`target_is_button` — the
    /// control handles its own click), the drag itself begins at `(x, y)`.
    pub fn on_pointer_down(
        &mut self,
        now_ms: u64,
        current_offset: u64,
        target_is_button: bool,
        x: i32,
        y: i32,
    )
        ensures
            !old(self).dismissible ==> *final(self) == *old(self),
            old(self).dismissible && target_is_button ==> *final(self) == (ToastLifecycle {
                drag_start_time: Some(now_ms),
                offset_before_remove: current_offset,
                ..*old(self)
            }),
            old(self).dismissible && !target_is_button ==> *final(self) == (ToastLifecycle {
                drag_start_time: Some(now_ms),
                offset_before_remove: current_offset,
                swiping: true,
                pointer_start: Some((x, y)),
                ..*old(self)
            }),
    {
        if !self.dismissible {
            return ;
        }
        self.drag_start_time = Some(now_ms);
        self.offset_before_remove = current_offset;
        if target_is_button {
            return ;
        }
        self.swiping = true;
        self.pointer_start = Some((x, y));
    }

    /// The pointer moved during a drag. Movement along the dismiss axis only
    /// counts towards the anchored edge (downwards for a bottom-anchored
    /// toast, upwards for a top-anchored one); once it passes the start
    /// threshold (10 px for touch, 2 px for mouse) the full vertical delta
    /// becomes the swipe amount, while crossing the threshold sideways first
    /// abandons the drag so scrolling is not hijacked.
    pub fn on_pointer_move(&mut self, x: i32, y: i32, touch_pointer: bool)
        ensures
            *final(self) == spec_pointer_move(*old(self), x, y, touch_pointer),
            swipe_amount_in_range(*old(self)) ==> swipe_amount_in_range(*final(self)),
    {
        if !self.dismissible {
            return ;
        }
        let start = match self.pointer_start {
            Some(p) => p,
            None => {
                return ;
            },
        };
        let dy: i64 = (y as i64) - (start.1 as i64);
        let dx: i64 = (x as i64) - (start.0 as i64);
        let clamped: i64 = match self.position {
            ToasterPosition::TopLeft | ToasterPosition::TopCenter | ToasterPosition::TopRight => {
                if dy < 0 {
                    dy
                } else {
                    0
                }
            },
            ToasterPosition::BottomRight
            | ToasterPosition::BottomCenter
            | ToasterPosition::BottomLeft => {
                if dy > 0 {
                    dy
                } else {
                    0
                }
            },
        };
        let threshold: i64 = if touch_pointer {
            TOUCH_START_THRESHOLD_PX
        } else {
            MOUSE_START_THRESHOLD_PX
        };
        let clamped_abs: i64 = if clamped < 0 {
            -clamped
        } else {
            clamped
        };
        let dx_abs: i64 = if dx < 0 {
            -dx
        } else {
            dx
        };
        if clamped_abs > threshold {
            self.swipe_amount = dy;
        } else if dx_abs > threshold {
            self.pointer_start = None;
        }
    }

    /// The pointer was released. Nothing happens after a committed swipe or
    /// on a non-dismissible toast. Otherwise the drag ends: a drag of at
    /// least 20 px, or faster than 0.11 px/ms, commits — the toast starts
    /// its removal (with the same host obligations as
    /// [`ToastLifecycle::delete`]) and `swipe_out` is set; any slighter drag
    /// snaps back to rest.
    pub fn on_pointer_up(&mut self, now_ms: u64, current_offset: u64) -> (started: bool)
        requires
            match old(self).drag_start_time {
                Some(t) => t <= now_ms,
                None => true,
            },
        ensures
            (old(self).swipe_out || !old(self).dismissible) ==> *final(self) == *old(self)
                && !started,
            (!old(self).swipe_out && old(self).dismissible && spec_swipe_commit(
                *old(self),
                now_ms,
            )) ==> *final(self) == (ToastLifecycle {
                pointer_start: None,
                offset_before_remove: current_offset,
                removed: true,
                swipe_out: true,
                ..*old(self)
            }) && started == !old(self).removed,
            (!old(self).swipe_out && old(self).dismissible && !spec_swipe_commit(
                *old(self),
                now_ms,
            )) ==> *final(self) == (ToastLifecycle {
                pointer_start: None,
                swipe_amount: 0,
                swiping: false,
                ..*old(self)
            }) && !started,
    {
        if self.swipe_out || !self.dismissible {
            return false;
        }
        self.pointer_start = None;
        let start: u64 = match self.drag_start_time {
            Some(t) => t,
            None => 0,
        };
        let elapsed: u64 = now_ms - start;
        let amount_abs: u128 = if self.swipe_amount < 0 {
            if self.swipe_amount == i64::MIN {
                0x8000_0000_0000_0000u128
            } else {
                (-self.swipe_amount) as u128
            }
        } else {
            self.swipe_amount as u128
        };
        if amount_abs >= SWIPE_COMMIT_PX as u128 || amount_abs * 100 > 11 * (elapsed as u128) {
            self.offset_before_remove = current_offset;
            let started = self.delete(current_offset);
            self.swipe_out = true;
            return started;
        }
        self.swipe_amount = 0;
        self.swiping = false;
        false
    }
}

/// The data attributes and numeric style variables one toast exposes to the
/// view layer.
#[derive(Debug)]
pub struct ToastPresentation {
    /// The toast's element has rendered.
    pub mounted: bool,
    /// The toast is playing its removal animation.
    pub removed: bool,
    /// The toast is within the visible-at-once limit.
    pub visible: bool,
    /// Horizontal anchor label ("left", "center" or "right").
    pub x_position: String,
    /// Vertical anchor label ("top" or "bottom").
    pub y_position: String,
    /// The toast's index in the current stack order.
    pub index: usize,
    /// The toast stands at the front of the stack.
    pub is_front: bool,
    /// A drag is in progress.
    pub swiping: bool,
    /// A drag exceeded the dismiss threshold.
    pub swipe_out: bool,
    /// The toast shows at full height.
    pub expanded: bool,
    /// Whether the toast reacts to swipes.
    pub dismissible: bool,
    /// Stacking order: front-most toast gets the highest value.
    pub z_index: usize,
    /// The toast's stacking offset, in pixels.
    pub offset_px: u64,
    /// The measured initial height in pixels, or `None` to let the element
    /// size itself when the stack expands by default.
    pub initial_height_px: Option<u32>,
    /// Signed drag offset, in pixels.
    pub swipe_amount_px: i64,
}

impl ToastLifecycle {
    /// The presentation data for this toast given its place in the stack:
    /// every field the view layer reads, pinned to the lifecycle state and
    /// the stack-derived inputs.
    pub fn presentation(
        &self,
        index: usize,
        num_toasts: usize,
        visible_toasts: usize,
        stack_expanded: bool,
        expand_by_default: bool,
        offset_px: u64,
    ) -> (r: ToastPresentation)
        requires
            index < num_toasts,
        ensures
            r.mounted == self.mounted,
            r.removed == self.removed,
            r.visible == (index < visible_toasts),
            self.position.spec_is_top() ==> r.y_position@ == "top"@,
            !self.position.spec_is_top() ==> r.y_position@ == "bottom"@,
            (self.position == ToasterPosition::TopLeft || self.position
                == ToasterPosition::BottomLeft) ==> r.x_position@ == "left"@,
            (self.position == ToasterPosition::TopCenter || self.position
                == ToasterPosition::BottomCenter) ==> r.x_position@ == "center"@,
            (self.position == ToasterPosition::TopRight || self.position
                == ToasterPosition::BottomRight) ==> r.x_position@ == "right"@,
            r.index == index,
            r.is_front == (index == 0),
            r.swiping == self.swiping,
            r.swipe_out == self.swipe_out,
            r.expanded == (stack_expanded || (expand_by_default && self.mounted)),
            r.dismissible == self.dismissible,
            r.z_index == num_toasts - index,
            r.offset_px == offset_px,
            r.initial_height_px == (if expand_by_default {
                Option::<u32>::None
            } else {
                Some(self.initial_height)
            }),
            r.swipe_amount_px == self.swipe_amount,
    {
        ToastPresentation {
            mounted: self.mounted,
            removed: self.removed,
            visible: index < visible_toasts,
            x_position: self.position.x(),
            y_position: self.position.y(),
            index,
            is_front: index == 0,
            swiping: self.swiping,
            swipe_out: self.swipe_out,
            expanded: stack_expanded || (expand_by_default && self.mounted),
            dismissible: self.dismissible,
            z_index: num_toasts - index,
            offset_px,
            initial_height_px: if expand_by_default {
                None
            } else {
                Some(self.initial_height)
            },
            swipe_amount_px: self.swipe_amount,
        }
    }
}

/// A second removal attempt, by whatever path, changes nothing: once a
/// deletion has started the state is fixed, so at most one purge is ever
/// scheduled for a toast.
pub proof fn lemma_delete_idempotent(s: ToastLifecycle, off1: u64, off2: u64)
    ensures
        spec_delete(s, off1).removed,
        spec_delete(spec_delete(s, off1), off2) == spec_delete(s, off1),
{
}

} // verus!
