//! Stack-wide configuration.
//!
//! A [`ToasterConfig`] carries the construction-time options of one toast
//! stack; each toast resolves its own duration and position against these
//! defaults when its lifecycle is created.

use vstd::prelude::*;

use crate::geometry::{find_height, HeightT};
use crate::types::{find_toast, Toast, ToasterPosition};

verus! {

/// The ids of a toast sequence, in stack order.
pub open spec fn toast_ids<V>(ts: Seq<Toast<V>>) -> Seq<Seq<u8>> {
    ts.map_values(|t: Toast<V>| t.id@)
}

/// The ids of a height-record sequence, in stack order.
pub open spec fn height_ids(hs: Seq<HeightT>) -> Seq<Seq<u8>> {
    hs.map_values(|h: HeightT| h.toast_id@)
}

/// `xs` appears within `ys` in the same relative order.
pub open spec fn is_subsequence(xs: Seq<Seq<u8>>, ys: Seq<Seq<u8>>) -> bool
    decreases ys.len(),
{
    if xs.len() == 0 {
        true
    } else if ys.len() == 0 {
        false
    } else if xs[0] == ys[0] {
        is_subsequence(xs.drop_first(), ys.drop_first())
    } else {
        is_subsequence(xs, ys.drop_first())
    }
}

/// The height records mirror the visual stack: their ids are a subsequence
/// of the active toasts' ids, front to back.
pub open spec fn heights_match_stack<V>(hs: Seq<HeightT>, ts: Seq<Toast<V>>) -> bool {
    is_subsequence(height_ids(hs), toast_ids(ts))
}

/// Index of the first id in `xs` equal to `id`, or -1.
pub open spec fn find_id(xs: Seq<Seq<u8>>, id: Seq<u8>) -> int
    decreases xs.len(),
{
    if xs.len() == 0 {
        -1
    } else if xs[0] == id {
        0
    } else {
        let r = find_id(xs.drop_first(), id);
        if r < 0 {
            -1
        } else {
            1 + r
        }
    }
}

/// `xs` with the first occurrence of `id` removed, if there is one.
pub open spec fn remove_first_id(xs: Seq<Seq<u8>>, id: Seq<u8>) -> Seq<Seq<u8>> {
    if find_id(xs, id) >= 0 {
        xs.remove(find_id(xs, id))
    } else {
        xs
    }
}

/// `find_id` stays within bounds, finds a true occurrence, and misses only
/// when none exists.
proof fn lemma_find_id(xs: Seq<Seq<u8>>, id: Seq<u8>)
    ensures
        -1 <= find_id(xs, id) < xs.len(),
        find_id(xs, id) >= 0 ==> xs[find_id(xs, id)] == id,
        find_id(xs, id) == -1 ==> forall|j: int| 0 <= j < xs.len() ==> #[trigger] xs[j] != id,
    decreases xs.len(),
{
    if xs.len() > 0 && xs[0] != id {
        lemma_find_id(xs.drop_first(), id);
        assert(forall|j: int| 1 <= j < xs.len() ==> #[trigger] xs[j] == xs.drop_first()[j - 1]);
    }
}

/// A subsequence without its first element is still a subsequence.
proof fn lemma_subsequence_drop_left(xs: Seq<Seq<u8>>, ys: Seq<Seq<u8>>)
    requires
        is_subsequence(xs, ys),
        xs.len() > 0,
    ensures
        is_subsequence(xs.drop_first(), ys),
    decreases ys.len(),
{
    if ys.len() > 0 {
        let xs2 = xs.drop_first();
        let ys2 = ys.drop_first();
        if xs[0] == ys[0] {
            if xs.len() > 1 && xs2[0] == ys[0] {
                lemma_subsequence_drop_left(xs2, ys2);
            }
        } else {
            lemma_subsequence_drop_left(xs, ys2);
            if xs2.len() > 0 && xs2[0] == ys[0] {
                lemma_subsequence_drop_left(xs2, ys2);
            }
        }
    }
}

/// Growing the right side at the front keeps every subsequence.
proof fn lemma_subsequence_extend_right(xs: Seq<Seq<u8>>, ys: Seq<Seq<u8>>, y: Seq<u8>)
    requires
        is_subsequence(xs, ys),
    ensures
        is_subsequence(xs, seq![y] + ys),
{
    let grown = seq![y] + ys;
    assert(grown.drop_first() =~= ys);
    if xs.len() > 0 && xs[0] == y {
        lemma_subsequence_drop_left(xs, ys);
    }
}

/// Removing any element of the left side keeps it a subsequence.
proof fn lemma_subsequence_remove_left(xs: Seq<Seq<u8>>, ys: Seq<Seq<u8>>, i: int)
    requires
        is_subsequence(xs, ys),
        0 <= i < xs.len(),
    ensures
        is_subsequence(xs.remove(i), ys),
    decreases ys.len(),
{
    if i == 0 {
        assert(xs.remove(0) =~= xs.drop_first());
        lemma_subsequence_drop_left(xs, ys);
    } else {
        let xs2 = xs.drop_first();
        let ys2 = ys.drop_first();
        if xs[0] == ys[0] {
            lemma_subsequence_remove_left(xs2, ys2, i - 1);
            assert(xs.remove(i)[0] == xs[0]);
            assert(xs.remove(i).drop_first() =~= xs2.remove(i - 1));
        } else {
            lemma_subsequence_remove_left(xs, ys2, i);
            assert(xs.remove(i)[0] == xs[0]);
        }
    }
}

/// Removing the first occurrence of the same id from both sides keeps the
/// left a subsequence of the right.
proof fn lemma_subsequence_remove_first(xs: Seq<Seq<u8>>, ys: Seq<Seq<u8>>, id: Seq<u8>)
    requires
        is_subsequence(xs, ys),
    ensures
        is_subsequence(remove_first_id(xs, id), remove_first_id(ys, id)),
    decreases ys.len(),
{
    lemma_find_id(xs, id);
    lemma_find_id(ys, id);
    if xs.len() == 0 {
        assert(remove_first_id(xs, id) =~= xs);
    } else {
        let xs2 = xs.drop_first();
        let ys2 = ys.drop_first();
        lemma_find_id(xs2, id);
        lemma_find_id(ys2, id);
        if xs[0] == ys[0] {
            if ys[0] == id {
                assert(find_id(xs, id) == 0 && find_id(ys, id) == 0);
                assert(remove_first_id(xs, id) =~= xs2);
                assert(remove_first_id(ys, id) =~= ys2);
            } else {
                lemma_subsequence_remove_first(xs2, ys2, id);
                if find_id(xs2, id) >= 0 {
                    assert(find_id(xs, id) == 1 + find_id(xs2, id));
                    assert(remove_first_id(xs, id) =~= seq![xs[0]] + remove_first_id(xs2, id));
                } else {
                    assert(find_id(xs, id) == -1);
                    assert(remove_first_id(xs, id) =~= seq![xs[0]] + remove_first_id(xs2, id));
                }
                if find_id(ys2, id) >= 0 {
                    assert(find_id(ys, id) == 1 + find_id(ys2, id));
                    assert(remove_first_id(ys, id) =~= seq![ys[0]] + remove_first_id(ys2, id));
                } else {
                    assert(find_id(ys, id) == -1);
                    assert(remove_first_id(ys, id) =~= seq![ys[0]] + remove_first_id(ys2, id));
                }
                assert(remove_first_id(xs, id)[0] == xs[0]);
                assert(remove_first_id(ys, id)[0] == ys[0]);
                assert(remove_first_id(xs, id).drop_first() =~= remove_first_id(xs2, id));
                assert(remove_first_id(ys, id).drop_first() =~= remove_first_id(ys2, id));
            }
        } else {
            if ys[0] == id {
                assert(find_id(ys, id) == 0);
                assert(remove_first_id(ys, id) =~= ys2);
                if find_id(xs, id) >= 0 {
                    lemma_subsequence_remove_left(xs, ys2, find_id(xs, id));
                }
            } else {
                lemma_subsequence_remove_first(xs, ys2, id);
                if find_id(ys2, id) >= 0 {
                    assert(find_id(ys, id) == 1 + find_id(ys2, id));
                    assert(remove_first_id(ys, id) =~= seq![ys[0]] + remove_first_id(ys2, id));
                    lemma_subsequence_extend_right(
                        remove_first_id(xs, id),
                        remove_first_id(ys2, id),
                        ys[0],
                    );
                } else {
                    assert(find_id(ys, id) == -1);
                    assert(remove_first_id(ys, id) =~= ys);
                    if find_id(xs, id) >= 0 {
                        lemma_subsequence_remove_left(xs, ys, find_id(xs, id));
                    }
                }
            }
        }
    }
}

/// Removing the first occurrence of an id that the left side does not hold
/// keeps the left a subsequence of the right.
proof fn lemma_subsequence_remove_right_absent(xs: Seq<Seq<u8>>, ys: Seq<Seq<u8>>, id: Seq<u8>)
    requires
        is_subsequence(xs, ys),
        find_id(xs, id) == -1,
    ensures
        is_subsequence(xs, remove_first_id(ys, id)),
    decreases ys.len(),
{
    lemma_find_id(xs, id);
    lemma_find_id(ys, id);
    if xs.len() == 0 {
    } else if ys.len() == 0 {
    } else {
        let xs2 = xs.drop_first();
        let ys2 = ys.drop_first();
        lemma_find_id(ys2, id);
        if xs[0] == ys[0] {
            assert(ys[0] != id);
            assert(find_id(xs2, id) == -1) by {
                if find_id(xs2, id) >= 0 {
                    lemma_find_id(xs2, id);
                    assert(xs[1 + find_id(xs2, id)] == xs2[find_id(xs2, id)]);
                }
            }
            lemma_subsequence_remove_right_absent(xs2, ys2, id);
            if find_id(ys2, id) >= 0 {
                assert(find_id(ys, id) == 1 + find_id(ys2, id));
                assert(remove_first_id(ys, id) =~= seq![ys[0]] + remove_first_id(ys2, id));
                assert(remove_first_id(ys, id)[0] == ys[0]);
                assert(remove_first_id(ys, id).drop_first() =~= remove_first_id(ys2, id));
            } else {
                assert(find_id(ys, id) == -1);
                assert(remove_first_id(ys, id) =~= ys);
            }
        } else {
            if ys[0] == id {
                assert(find_id(ys, id) == 0);
                assert(remove_first_id(ys, id) =~= ys2);
            } else {
                lemma_subsequence_remove_right_absent(xs, ys2, id);
                if find_id(ys2, id) >= 0 {
                    assert(find_id(ys, id) == 1 + find_id(ys2, id));
                    assert(remove_first_id(ys, id) =~= seq![ys[0]] + remove_first_id(ys2, id));
                    lemma_subsequence_extend_right(xs, remove_first_id(ys2, id), ys[0]);
                } else {
                    assert(find_id(ys, id) == -1);
                    assert(remove_first_id(ys, id) =~= ys);
                }
            }
        }
    }
}

/// `find_id` over a toast sequence's ids is `find_toast`.
proof fn lemma_find_toast_ids<V>(ts: Seq<Toast<V>>, id: Seq<u8>)
    ensures
        find_id(toast_ids(ts), id) == find_toast(ts, id),
    decreases ts.len(),
{
    if ts.len() > 0 {
        assert(toast_ids(ts)[0] == ts[0].id@);
        assert(toast_ids(ts).drop_first() =~= toast_ids(ts.drop_first()));
        lemma_find_toast_ids(ts.drop_first(), id);
    }
}

/// `find_id` over a height sequence's ids is `find_height`.
proof fn lemma_find_height_ids(hs: Seq<HeightT>, id: Seq<u8>)
    ensures
        find_id(height_ids(hs), id) == find_height(hs, id),
    decreases hs.len(),
{
    if hs.len() > 0 {
        assert(height_ids(hs)[0] == hs[0].toast_id@);
        assert(height_ids(hs).drop_first() =~= height_ids(hs.drop_first()));
        lemma_find_height_ids(hs.drop_first(), id);
    }
}

/// Registering a new toast's height as the toast joins the stack front
/// keeps the records aligned with the stack.
pub proof fn lemma_heights_match_after_add<V>(
    hs: Seq<HeightT>,
    ts: Seq<Toast<V>>,
    h: HeightT,
    t: Toast<V>,
)
    requires
        heights_match_stack(hs, ts),
        h.toast_id@ == t.id@,
    ensures
        heights_match_stack(hs.insert(0, h), ts.insert(0, t)),
{
    assert(height_ids(hs.insert(0, h)) =~= seq![h.toast_id@] + height_ids(hs));
    assert(toast_ids(ts.insert(0, t)) =~= seq![t.id@] + toast_ids(ts));
    assert((seq![h.toast_id@] + height_ids(hs)).drop_first() =~= height_ids(hs));
    assert((seq![t.id@] + toast_ids(ts)).drop_first() =~= toast_ids(ts));
}

/// A toast that joins the stack before its element is measured leaves the
/// records aligned as well.
pub proof fn lemma_heights_match_after_unmeasured_add<V>(
    hs: Seq<HeightT>,
    ts: Seq<Toast<V>>,
    t: Toast<V>,
)
    requires
        heights_match_stack(hs, ts),
    ensures
        heights_match_stack(hs, ts.insert(0, t)),
{
    lemma_subsequence_extend_right(height_ids(hs), toast_ids(ts), t.id@);
    assert(toast_ids(ts.insert(0, t)) =~= seq![t.id@] + toast_ids(ts));
}

/// Dropping a toast's height record when its removal starts keeps the
/// records aligned with the stack, exactly as `Heights::unregister` leaves
/// them.
pub proof fn lemma_heights_match_after_unregister<V>(
    hs: Seq<HeightT>,
    ts: Seq<Toast<V>>,
    id: Seq<u8>,
)
    requires
        heights_match_stack(hs, ts),
    ensures
        heights_match_stack(
            if find_height(hs, id) >= 0 {
                hs.remove(find_height(hs, id))
            } else {
                hs
            },
            ts,
        ),
{
    lemma_find_height_ids(hs, id);
    if find_height(hs, id) >= 0 {
        crate::geometry::lemma_find_height(hs, id);
        lemma_subsequence_remove_left(height_ids(hs), toast_ids(ts), find_height(hs, id));
        assert(height_ids(hs.remove(find_height(hs, id))) =~= height_ids(hs).remove(
            find_height(hs, id),
        ));
    }
}

/// Purging a toast whose height record is already gone keeps the remaining
/// records aligned with the stack, exactly as `Toasts::dismiss` and
/// `Toasts::remove_from_stack` leave it.
pub proof fn lemma_heights_match_after_purge<V>(hs: Seq<HeightT>, ts: Seq<Toast<V>>, id: Seq<u8>)
    requires
        heights_match_stack(hs, ts),
        find_height(hs, id) == -1,
    ensures
        heights_match_stack(
            hs,
            if find_toast(ts, id) >= 0 {
                ts.remove(find_toast(ts, id))
            } else {
                ts
            },
        ),
{
    lemma_find_height_ids(hs, id);
    lemma_find_toast_ids(ts, id);
    crate::types::lemma_find_toast(ts, id);
    lemma_subsequence_remove_right_absent(height_ids(hs), toast_ids(ts), id);
    if find_toast(ts, id) >= 0 {
        assert(toast_ids(ts.remove(find_toast(ts, id))) =~= toast_ids(ts).remove(
            find_toast(ts, id),
        ));
        assert(remove_first_id(toast_ids(ts), id) =~= toast_ids(ts).remove(find_toast(ts, id)));
    } else {
        assert(remove_first_id(toast_ids(ts), id) =~= toast_ids(ts));
    }
}

/// Dismissing a toast while dropping its height record in the same step
/// (the immediate, unanimated path) keeps the records aligned with the
/// stack.
pub proof fn lemma_heights_match_after_removal<V>(
    hs: Seq<HeightT>,
    ts: Seq<Toast<V>>,
    id: Seq<u8>,
)
    requires
        heights_match_stack(hs, ts),
    ensures
        heights_match_stack(
            if find_height(hs, id) >= 0 {
                hs.remove(find_height(hs, id))
            } else {
                hs
            },
            if find_toast(ts, id) >= 0 {
                ts.remove(find_toast(ts, id))
            } else {
                ts
            },
        ),
{
    lemma_find_height_ids(hs, id);
    lemma_find_toast_ids(ts, id);
    crate::types::lemma_find_toast(ts, id);
    crate::geometry::lemma_find_height(hs, id);
    lemma_subsequence_remove_first(height_ids(hs), toast_ids(ts), id);
    if find_height(hs, id) >= 0 {
        assert(height_ids(hs.remove(find_height(hs, id))) =~= height_ids(hs).remove(
            find_height(hs, id),
        ));
        assert(remove_first_id(height_ids(hs), id) =~= height_ids(hs).remove(find_height(hs, id)));
    } else {
        assert(remove_first_id(height_ids(hs), id) =~= height_ids(hs));
    }
    if find_toast(ts, id) >= 0 {
        assert(toast_ids(ts.remove(find_toast(ts, id))) =~= toast_ids(ts).remove(
            find_toast(ts, id),
        ));
        assert(remove_first_id(toast_ids(ts), id) =~= toast_ids(ts).remove(find_toast(ts, id)));
    } else {
        assert(remove_first_id(toast_ids(ts), id) =~= toast_ids(ts));
    }
}

/// Default gap between stacked toasts, in pixels.
pub const DEFAULT_GAP_PX: u32 = 14;

/// Default number of toasts visible at once.
pub const DEFAULT_VISIBLE_TOASTS: usize = 3;

/// Construction-time options of a toast stack.
#[derive(Clone, Copy, Debug)]
pub struct ToasterConfig {
    /// Where the stack anchors on screen.
    pub position: ToasterPosition,
    /// Show every toast at full height even without hovering.
    pub expand_by_default: bool,
    /// Auto-dismiss duration in milliseconds for toasts without an override.
    pub duration_ms: u64,
    /// Gap between stacked toasts, in pixels.
    pub gap: u32,
    /// The maximum number of toasts that should be visible at any point.
    pub visible_toasts: usize,
}

impl Default for ToasterConfig {
    /// Bottom right, collapsed, four seconds, a 14 px gap, three visible
    /// toasts.
    fn default() -> (r: ToasterConfig)
        ensures
            r.position == ToasterPosition::BottomRight,
            !r.expand_by_default,
            r.duration_ms == crate::types::DEFAULT_DURATION_MS,
            r.gap == DEFAULT_GAP_PX,
            r.visible_toasts == DEFAULT_VISIBLE_TOASTS,
    {
        ToasterConfig {
            position: ToasterPosition::BottomRight,
            expand_by_default: false,
            duration_ms: crate::types::DEFAULT_DURATION_MS,
            gap: DEFAULT_GAP_PX,
            visible_toasts: DEFAULT_VISIBLE_TOASTS,
        }
    }
}

} // verus!
