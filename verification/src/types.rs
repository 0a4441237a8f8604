//! The toast stack and its shared types.
//!
//! [`Toasts`] owns the ordered collection of active toasts (newest first)
//! together with the stack-wide interaction flags. The dismiss-signal wire
//! format — a prefixed, comma-separated rendering of a [`ToastId`] — is
//! encoded and decoded here as well.

use vstd::prelude::*;
use vstd::string::StrSliceExecFns;
use vstd::string::StringExecFns;

use crate::toast_id::{
    counter_bytes, decoded_bytes, encode_bytes, is_valid_encoding, ToastId, BYTES_LEN,
};

verus! {

/// Default auto-dismiss duration in milliseconds.
pub const DEFAULT_DURATION_MS: u64 = 4000;

/// Per-toast options, fixed once the toast is created.
#[derive(Clone, Debug, PartialEq)]
pub struct ToastOptions {
    /// Whether the toast reacts to swipe gestures and pointer interaction.
    pub dismissible: bool,
    /// Duration in milliseconds until the toast is dismissed, overriding the
    /// stack default when present.
    pub duration_ms: Option<u64>,
    /// The position of the toast, overriding the stack default when present.
    pub position: Option<ToasterPosition>,
}

impl Default for ToastOptions {
    /// Dismissible, with no duration or position override.
    fn default() -> (r: ToastOptions)
        ensures
            r.dismissible == true,
            r.duration_ms is None,
            r.position is None,
    {
        ToastOptions { dismissible: true, duration_ms: None, position: None }
    }
}

/// One active toast: its id, the opaque content handle the renderer consumes,
/// and its options. Immutable after creation.
#[derive(Clone, Debug)]
pub struct Toast<V> {
    pub id: ToastId,
    pub view: V,
    pub options: ToastOptions,
}

/// Possible positions for the toasts.
#[derive(Clone, Copy, PartialEq, Eq, Structural, Hash, Debug)]
pub enum ToasterPosition {
    TopLeft,
    TopCenter,
    TopRight,
    BottomRight,
    BottomCenter,
    BottomLeft,
}

impl ToasterPosition {
    /// Whether the position anchors the stack to the top edge.
    pub open spec fn spec_is_top(self) -> bool {
        self == ToasterPosition::TopLeft || self == ToasterPosition::TopCenter || self
            == ToasterPosition::TopRight
    }

    /// The horizontal anchor, as the renderer's data attribute expects it.
    pub fn x(&self) -> (r: String)
        ensures
            (*self == ToasterPosition::TopLeft || *self == ToasterPosition::BottomLeft) ==> r@
                == "left"@,
            (*self == ToasterPosition::TopCenter || *self == ToasterPosition::BottomCenter) ==> r@
                == "center"@,
            (*self == ToasterPosition::TopRight || *self == ToasterPosition::BottomRight) ==> r@
                == "right"@,
    {
        match self {
            ToasterPosition::TopLeft | ToasterPosition::BottomLeft => String::from_str("left"),
            ToasterPosition::TopCenter | ToasterPosition::BottomCenter => String::from_str(
                "center",
            ),
            ToasterPosition::TopRight | ToasterPosition::BottomRight => String::from_str("right"),
        }
    }

    /// The vertical anchor, as the renderer's data attribute expects it.
    pub fn y(&self) -> (r: String)
        ensures
            self.spec_is_top() ==> r@ == "top"@,
            !self.spec_is_top() ==> r@ == "bottom"@,
    {
        match self {
            ToasterPosition::TopLeft | ToasterPosition::TopCenter | ToasterPosition::TopRight => {
                String::from_str("top")
            },
            ToasterPosition::BottomRight
            | ToasterPosition::BottomCenter
            | ToasterPosition::BottomLeft => String::from_str("bottom"),
        }
    }
}

/// Index of the first toast in `ts` whose id has the bytes `id`, or -1 when
/// no toast matches.
pub open spec fn find_toast<V>(ts: Seq<Toast<V>>, id: Seq<u8>) -> int
    decreases ts.len(),
{
    if ts.len() == 0 {
        -1
    } else if ts[0].id@ == id {
        0
    } else {
        let r = find_toast(ts.drop_first(), id);
        if r < 0 {
            -1
        } else {
            1 + r
        }
    }
}

/// `find_toast` returns either -1 with no match anywhere, or the first
/// matching index.
pub proof fn lemma_find_toast<V>(ts: Seq<Toast<V>>, id: Seq<u8>)
    ensures
        -1 <= find_toast(ts, id) < ts.len(),
        find_toast(ts, id) == -1 ==> forall|j: int| 0 <= j < ts.len() ==> (#[trigger] ts[j].id)@
            != id,
        find_toast(ts, id) >= 0 ==> ts[find_toast(ts, id)].id@ == id,
        find_toast(ts, id) >= 0 ==> forall|j: int|
            0 <= j < find_toast(ts, id) ==> (#[trigger] ts[j].id)@ != id,
    decreases ts.len(),
{
    if ts.len() > 0 && ts[0].id@ != id {
        lemma_find_toast(ts.drop_first(), id);
        assert(forall|j: int|
            1 <= j < ts.len() ==> (#[trigger] ts[j].id) == ts.drop_first()[j - 1].id);
    }
}

/// The toast stack: the ordered collection of active toasts, newest first,
/// the stack-wide interaction flags, and the counter that generated ids are
/// drawn from.
#[derive(Debug)]
pub struct Toasts<V> {
    /// Active toasts, newest (front of the visual stack) at index 0.
    pub toasts: Vec<Toast<V>>,
    /// The stack shows all toasts at full height (hover state).
    pub expanded: bool,
    /// A pointer went down on a dismissible part of the stack.
    pub interacting: bool,
    /// Counter for generated ids; never repeats within one stack.
    pub counter: usize,
}

impl<V> Toasts<V> {
    /// An empty stack: no toasts, not expanded, not interacting.
    pub fn new() -> (r: Toasts<V>)
        ensures
            r.toasts@.len() == 0,
            !r.expanded,
            !r.interacting,
            r.counter == 0,
    {
        Toasts { toasts: Vec::new(), expanded: false, interacting: false, counter: 0 }
    }

    /// Number of active toasts.
    pub fn count(&self) -> (r: usize)
        ensures
            r == self.toasts@.len(),
    {
        self.toasts.len()
    }

    /// Index of the toast with the given id in the current stack order, or
    /// `None` when no toast has that id.
    pub fn index_of(&self, toast_id: &ToastId) -> (r: Option<usize>)
        ensures
            match r {
                Some(i) => find_toast(self.toasts@, toast_id@) == i,
                None => find_toast(self.toasts@, toast_id@) == -1,
            },
    {
        proof {
            lemma_find_toast(self.toasts@, toast_id@);
        }
        let mut i: usize = 0;
        while i < self.toasts.len()
            invariant
                0 <= i <= self.toasts@.len(),
                forall|j: int| 0 <= j < i ==> (#[trigger] self.toasts@[j].id)@ != toast_id@,
                -1 <= find_toast(self.toasts@, toast_id@) < self.toasts@.len(),
                find_toast(self.toasts@, toast_id@) >= 0 ==> self.toasts@[find_toast(
                    self.toasts@,
                    toast_id@,
                )].id@ == toast_id@,
                find_toast(self.toasts@, toast_id@) == -1 ==> forall|j: int|
                    0 <= j < self.toasts@.len() ==> (#[trigger] self.toasts@[j].id)@ != toast_id@,
                find_toast(self.toasts@, toast_id@) >= 0 ==> forall|j: int|
                    0 <= j < find_toast(self.toasts@, toast_id@) ==> (#[trigger] self.toasts@[j].id)@
                        != toast_id@,
            decreases self.toasts@.len() - i,
        {
            if self.toasts[i].id == *toast_id {
                return Some(i);
            }
            i = i + 1;
        }
        None
    }

    /// Creates a toast and prepends it to the stack, so the newest toast
    /// stands at index 0. When `id` is omitted a fresh one is drawn from the
    /// stack's counter; when `options` is omitted the defaults apply. Always
    /// succeeds and returns the new toast's id. A stack left with at most one
    /// toast is never expanded.
    pub fn toast(&mut self, view: V, id: Option<ToastId>, options: Option<ToastOptions>) -> (r:
        ToastId)
        requires
            id is None ==> old(self).counter < usize::MAX,
        ensures
            id is None ==> r.wf(),
            final(self).toasts@.len() == old(self).toasts@.len() + 1,
            final(self).toasts@.skip(1) == old(self).toasts@,
            final(self).toasts@[0].id@ == r@,
            final(self).toasts@[0].view == view,
            match id {
                Some(given) => r@ == given@ && final(self).counter == old(self).counter,
                None => r@ == counter_bytes(old(self).counter) && final(self).counter == old(
                    self,
                ).counter + 1,
            },
            match options {
                Some(o) => final(self).toasts@[0].options == o,
                None => final(self).toasts@[0].options == (ToastOptions {
                    dismissible: true,
                    duration_ms: None,
                    position: None,
                }),
            },
            final(self).expanded == (if old(self).toasts@.len() == 0 {
                false
            } else {
                old(self).expanded
            }),
            final(self).interacting == old(self).interacting,
    {
        let id = match id {
            Some(given) => given,
            None => ToastId::new(&mut self.counter),
        };
        let id_copy = id.clone();
        let options = match options {
            Some(o) => o,
            None => ToastOptions { dismissible: true, duration_ms: None, position: None },
        };
        let entry = Toast { id, view, options };
        self.toasts.insert(0, entry);
        if self.toasts.len() <= 1 {
            self.expanded = false;
        }
        proof {
            assert(final(self).toasts@.skip(1) =~= old(self).toasts@);
        }
        id_copy
    }

    /// Removes the toast with the given id at once — the programmatic path,
    /// with no removal animation. A miss leaves the collection unchanged. A
    /// stack left with at most one toast is never expanded.
    pub fn dismiss(&mut self, toast_id: &ToastId)
        ensures
            ({
                let i = find_toast(old(self).toasts@, toast_id@);
                if i >= 0 {
                    final(self).toasts@ == old(self).toasts@.remove(i)
                } else {
                    final(self).toasts@ == old(self).toasts@
                }
            }),
            final(self).expanded == (if final(self).toasts@.len() <= 1 {
                false
            } else {
                old(self).expanded
            }),
            final(self).interacting == old(self).interacting,
            final(self).counter == old(self).counter,
    {
        proof {
            lemma_find_toast(self.toasts@, toast_id@);
        }
        match self.index_of(toast_id) {
            Some(i) => {
                self.toasts.remove(i);
            },
            None => {},
        }
        if self.toasts.len() <= 1 {
            self.expanded = false;
        }
    }

    /// Removes the toast with the given id once its removal animation has
    /// finished; same removal semantics as [`Toasts::dismiss`], invoked from
    /// the lifecycle's purge.
    pub fn remove_from_stack(&mut self, toast_id: &ToastId)
        ensures
            ({
                let i = find_toast(old(self).toasts@, toast_id@);
                if i >= 0 {
                    final(self).toasts@ == old(self).toasts@.remove(i)
                } else {
                    final(self).toasts@ == old(self).toasts@
                }
            }),
            final(self).expanded == (if final(self).toasts@.len() <= 1 {
                false
            } else {
                old(self).expanded
            }),
            final(self).interacting == old(self).interacting,
            final(self).counter == old(self).counter,
    {
        self.dismiss(toast_id)
    }

    /// The pointer entered the stack: show every toast at full height.
    pub fn on_mouse_enter(&mut self)
        ensures
            *final(self) == (Toasts { expanded: true, ..*old(self) }),
    {
        self.expanded = true;
    }

    /// The pointer moved over the stack: keep it expanded.
    pub fn on_mouse_move(&mut self)
        ensures
            *final(self) == (Toasts { expanded: true, ..*old(self) }),
    {
        self.expanded = true;
    }

    /// The pointer left the stack: collapse it, unless a drag is under way.
    pub fn on_mouse_leave(&mut self)
        ensures
            *final(self) == (Toasts {
                expanded: old(self).interacting && old(self).expanded,
                ..*old(self)
            }),
    {
        if !self.interacting {
            self.expanded = false;
        }
    }

    /// A pointer went down somewhere on the stack; `target_dismissible` says
    /// whether the element under the pointer allows dismissal.
    pub fn on_pointer_down(&mut self, target_dismissible: bool)
        ensures
            *final(self) == (Toasts {
                interacting: old(self).interacting || target_dismissible,
                ..*old(self)
            }),
    {
        if target_dismissible {
            self.interacting = true;
        }
    }

    /// A pointer was released over the stack.
    pub fn on_pointer_up(&mut self)
        ensures
            *final(self) == (Toasts { interacting: true, ..*old(self) }),
    {
        self.interacting = true;
    }
}

/// Whether `m` starts with the dismiss-signal prefix.
pub open spec fn has_dismiss_prefix(m: Seq<char>) -> bool {
    m.len() >= "LEPTOS_TOASTER:"@.len() && m.take("LEPTOS_TOASTER:"@.len() as int)
        == "LEPTOS_TOASTER:"@
}

/// The part of `m` after the dismiss-signal prefix.
pub open spec fn dismiss_payload(m: Seq<char>) -> Seq<char> {
    m.skip("LEPTOS_TOASTER:"@.len() as int)
}

/// The full dismiss-signal message for an id with the bytes `bs`.
pub open spec fn dismiss_message(bs: Seq<u8>) -> Seq<char> {
    "LEPTOS_TOASTER:"@ + encode_bytes(bs)
}

/// Renders the dismiss-signal message that asks the stack to dismiss the
/// toast with this id; the host posts it on the dismiss channel.
pub fn dismiss_toast_message(toast_id: &ToastId) -> (r: String)
    ensures
        r@ == dismiss_message(toast_id@),
{
    let mut out = String::from_str("LEPTOS_TOASTER:");
    let encoded = toast_id.to_decodable_string();
    out.append(encoded.as_str());
    out
}

/// Round trip through the dismiss channel: the message built for a
/// well-formed id carries the prefix, its payload is a valid encoding, and
/// decoding it recovers the id's bytes exactly.
pub proof fn lemma_dismiss_message_round_trip(bs: Seq<u8>)
    requires
        bs.len() == BYTES_LEN,
    ensures
        has_dismiss_prefix(dismiss_message(bs)),
        dismiss_payload(dismiss_message(bs)) == encode_bytes(bs),
        is_valid_encoding(dismiss_payload(dismiss_message(bs))),
        decoded_bytes(dismiss_payload(dismiss_message(bs))) == bs,
{
    crate::toast_id::lemma_encode_decode_round_trip(bs);
    assert(dismiss_message(bs).take("LEPTOS_TOASTER:"@.len() as int) =~= "LEPTOS_TOASTER:"@);
    assert(dismiss_payload(dismiss_message(bs)) =~= encode_bytes(bs));
}

/// Reads a dismiss-signal message: the id it asks to dismiss, or `None` for
/// a message without the prefix or with a malformed payload — such messages
/// are dropped silently.
pub fn decode_message(message: String) -> (r: Option<ToastId>)
    ensures
        match r {
            Some(id) => has_dismiss_prefix(message@) && is_valid_encoding(
                dismiss_payload(message@),
            ) && id.wf() && id@ == decoded_bytes(dismiss_payload(message@)),
            None => !has_dismiss_prefix(message@) || !is_valid_encoding(
                dismiss_payload(message@),
            ),
        },
{
    let prefix = "LEPTOS_TOASTER:";
    let plen = prefix.unicode_len();
    let m = message.as_str();
    let n = m.unicode_len();
    if n < plen {
        return None;
    }
    let mut i: usize = 0;
    while i < plen
        invariant
            plen == "LEPTOS_TOASTER:"@.len(),
            plen <= n == m@.len(),
            m@ == message@,
            prefix@ == "LEPTOS_TOASTER:"@,
            forall|j: int| 0 <= j < i ==> m@[j] == "LEPTOS_TOASTER:"@[j],
        decreases plen - i,
    {
        if m.get_char(i) != prefix.get_char(i) {
            proof {
                assert(message@.take(plen as int)[i as int] != "LEPTOS_TOASTER:"@[i as int]);
            }
            return None;
        }
        i = i + 1;
    }
    proof {
        assert(message@.take(plen as int) =~= "LEPTOS_TOASTER:"@);
    }
    let payload = m.substring_char(plen, n);
    proof {
        assert(payload@ =~= dismiss_payload(message@));
    }
    ToastId::try_decode_string(payload)
}

} // verus!
