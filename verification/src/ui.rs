//! The text elements the script surface can put on screen: created with
//! an id, hidden by id, cleared all at once. Drawing them is the
//! renderer's business; this is only the element store.

use vstd::prelude::*;

verus! {

/// Styling options for a text element; absent fields take the documented
/// defaults.
pub struct TextOptions {
    pub font_size: Option<u32>,
    pub color: Option<[u8; 3]>,
    pub alignment: Option<String>,
}

/// One text element on screen.
pub struct UiElement {
    pub id: u32,
    pub text: String,
    pub x: i64,
    pub y: i64,
    pub font_size: u32,
    pub color: [u8; 3],
    pub alignment: String,
    pub visible: bool,
}

/// The font size a text element gets when the options name none.
pub const DEFAULT_FONT_SIZE: u32 = 16;

/// The font size chosen by `options`, or the default.
pub open spec fn spec_font_size(options: Option<TextOptions>) -> u32 {
    match options {
        Some(o) => match o.font_size {
            Some(f) => f,
            None => DEFAULT_FONT_SIZE,
        },
        None => DEFAULT_FONT_SIZE,
    }
}

/// The colour chosen by `options`, or white.
pub open spec fn spec_text_color(options: Option<TextOptions>) -> [u8; 3] {
    match options {
        Some(o) => match o.color {
            Some(c) => c,
            None => [255u8, 255u8, 255u8],
        },
        None => [255u8, 255u8, 255u8],
    }
}

/// The alignment chosen by `options`, or left alignment, as characters.
pub open spec fn spec_alignment_view(options: Option<TextOptions>) -> Seq<char> {
    match options {
        Some(o) => match o.alignment {
            Some(a) => a@,
            None => "left"@,
        },
        None => "left"@,
    }
}

/// How many of the elements are visible.
pub open spec fn count_visible(s: Seq<UiElement>) -> int
    decreases s.len(),
{
    if s.len() == 0 {
        0
    } else {
        count_visible(s.drop_last()) + if s.last().visible {
            1int
        } else {
            0int
        }
    }
}

/// Whether entry `oi` of the listing is one of the first `bound`
/// elements of the store and visible.
pub open spec fn taken_from_visible(
    out: Seq<UiElement>,
    elems: Seq<UiElement>,
    bound: int,
    oi: int,
) -> bool {
    exists|k: int|
        0 <= k < bound && out[oi] == (#[trigger] elems[k]) && elems[k].visible
}

/// Whether element `k` of the store appears in the listing.
pub open spec fn visible_is_listed(out: Seq<UiElement>, elems: Seq<UiElement>, k: int) -> bool {
    exists|oi: int| 0 <= oi < out.len() && (#[trigger] out[oi]) == elems[k]
}

/// The store of on-screen text elements.
pub struct UISystem {
    elements: Vec<UiElement>,
    next_id: u32,
}

impl UISystem {
    /// The elements, in creation order.
    pub closed spec fn elements(&self) -> Seq<UiElement> {
        self.elements@
    }

    /// The id the next created element will get.
    pub closed spec fn next_id(&self) -> u32 {
        self.next_id
    }

    /// Element ids are handed out from 1 upward, so they are strictly
    /// increasing in creation order and all below the counter.
    pub open spec fn wf(&self) -> bool {
        &&& self.next_id() >= 1
        &&& forall|i: int| #![trigger self.elements()[i]]
            0 <= i < self.elements().len() ==> self.elements()[i].id < self.next_id()
        &&& forall|i: int, j: int| #![trigger self.elements()[i], self.elements()[j]]
            0 <= i < j < self.elements().len()
                ==> self.elements()[i].id < self.elements()[j].id
    }

    /// An empty store; the first element will get id 1.
    pub fn new() -> (r: Self)
        ensures
            r.wf(),
            r.elements() =~= Seq::<UiElement>::empty(),
            r.next_id() == 1,
    {
        UISystem { elements: Vec::new(), next_id: 1 }
    }

    /// The id the next created element will get.
    pub fn next_element_id(&self) -> (r: u32)
        ensures
            r == self.next_id(),
    {
        self.next_id
    }

    /// Put `text` on screen at `(x, y)` with the chosen (or default)
    /// styling, visible, under a fresh id, which is returned.
    pub fn show_text(&mut self, text: String, x: i64, y: i64, options: Option<TextOptions>) -> (r:
        u32)
        requires
            old(self).wf(),
            old(self).next_id() < u32::MAX,
        ensures
            final(self).wf(),
            r == old(self).next_id(),
            final(self).next_id() == old(self).next_id() + 1,
            final(self).elements().len() == old(self).elements().len() + 1,
            final(self).elements().drop_last() == old(self).elements(),
            ({
                let e = final(self).elements().last();
                &&& e.id == r
                &&& e.text == text
                &&& e.x == x
                &&& e.y == y
                &&& e.font_size == spec_font_size(options)
                &&& e.color == spec_text_color(options)
                &&& e.alignment@ == spec_alignment_view(options)
                &&& e.visible
            }),
    {
        let id = self.next_id;
        self.next_id = self.next_id + 1;
        let (font_size, color, alignment) = match options {
            Some(o) => {
                let f = match o.font_size {
                    Some(f) => f,
                    None => DEFAULT_FONT_SIZE,
                };
                let c = match o.color {
                    Some(c) => c,
                    None => [255u8, 255u8, 255u8],
                };
                let a = match o.alignment {
                    Some(a) => a,
                    None => String::from_str("left"),
                };
                (f, c, a)
            },
            None => (DEFAULT_FONT_SIZE, [255u8, 255u8, 255u8], String::from_str("left")),
        };
        let element = UiElement { id, text, x, y, font_size, color, alignment, visible: true };
        self.elements.push(element);
        proof {
            assert(self.elements().drop_last() =~= old(self).elements());
            assert forall|i: int, j: int| #![trigger self.elements()[i], self.elements()[j]]
                0 <= i < j < self.elements().len() implies self.elements()[i].id
                < self.elements()[j].id by {
                if j < self.elements().len() - 1 {
                    assert(old(self).elements()[i] == self.elements()[i]);
                    assert(old(self).elements()[j] == self.elements()[j]);
                } else {
                    assert(old(self).elements()[i] == self.elements()[i]);
                    assert(old(self).elements()[i].id < old(self).next_id());
                }
            }
            assert forall|i: int| #![trigger self.elements()[i]]
                0 <= i < self.elements().len() implies self.elements()[i].id < self.next_id() by {
                if i < self.elements().len() - 1 {
                    assert(old(self).elements()[i] == self.elements()[i]);
                    assert(old(self).elements()[i].id < old(self).next_id());
                }
            }
        }
        id
    }

    /// Make the element with `element_id` invisible, where there is one.
    /// Reports whether there was.
    pub fn hide_text(&mut self, element_id: u32) -> (r: bool)
        requires
            old(self).wf(),
        ensures
            final(self).wf(),
            final(self).next_id() == old(self).next_id(),
            r == exists|i: int|
                0 <= i < old(self).elements().len()
                && (#[trigger] old(self).elements()[i]).id == element_id,
            r ==> exists|i: int|
                0 <= i < old(self).elements().len()
                && (#[trigger] old(self).elements()[i]).id == element_id
                && final(self).elements() =~= old(self).elements().update(
                    i,
                    UiElement { visible: false, ..old(self).elements()[i] },
                ),
            !r ==> final(self).elements() == old(self).elements(),
    {
        let n = self.elements.len();
        let mut i: usize = 0;
        while i < n
            invariant
                old(self).wf(),
                self == old(self),
                n == self.elements@.len(),
                i <= n,
                forall|j: int| 0 <= j < i ==> (#[trigger] self.elements@[j]).id != element_id,
            decreases n - i,
        {
            if self.elements[i].id == element_id {
                let mut e = self.elements.remove(i);
                e.visible = false;
                self.elements.insert(i, e);
                proof {
                    assert(self.elements@ =~= old(self).elements@.update(
                        i as int,
                        UiElement { visible: false, ..old(self).elements@[i as int] },
                    ));
                    assert(old(self).elements@[i as int].id == element_id);
                }
                return true;
            }
            i = i + 1;
        }
        false
    }

    /// Take every element off the screen and start ids over at 1.
    pub fn clear_ui(&mut self) -> (r: bool)
        ensures
            final(self).wf(),
            final(self).elements() =~= Seq::<UiElement>::empty(),
            final(self).next_id() == 1,
            r,
    {
        self.elements.clear();
        self.next_id = 1;
        true
    }

    /// How many elements the store holds, visible or not.
    pub fn element_count(&self) -> (r: usize)
        ensures
            r == self.elements().len(),
    {
        self.elements.len()
    }

    /// A borrowed look at the element at `index`, in creation order.
    pub fn element_at(&self, index: usize) -> (r: &UiElement)
        requires
            index < self.elements().len(),
        ensures
            *r == self.elements()[index as int],
    {
        &self.elements[index]
    }

    /// The visible elements, copied out of the store in creation order:
    /// exactly the elements whose `visible` flag is set, in ascending id
    /// order, each one once.
    pub fn get_visible_elements(&self) -> (out: Vec<UiElement>)
        requires
            self.wf(),
        ensures
            out@.len() == count_visible(self.elements()),
            forall|oi: int| 0 <= oi < out@.len() ==> #[trigger] taken_from_visible(
                out@,
                self.elements(),
                self.elements().len() as int,
                oi,
            ),
            forall|oi: int, oj: int| #![trigger out@[oi], out@[oj]]
                0 <= oi < oj < out@.len() ==> out@[oi].id < out@[oj].id,
            forall|k: int|
                0 <= k < self.elements().len() && (#[trigger] self.elements()[k]).visible
                    ==> visible_is_listed(out@, self.elements(), k),
    {
        let n = self.elements.len();
        let mut out: Vec<UiElement> = Vec::new();
        let mut i: usize = 0;
        while i < n
            invariant
                self.wf(),
                n == self.elements().len(),
                i <= n,
                out@.len() == count_visible(self.elements().take(i as int)),
                forall|oi: int| 0 <= oi < out@.len() ==> #[trigger] taken_from_visible(
                    out@,
                    self.elements(),
                    i as int,
                    oi,
                ),
                forall|oi: int, oj: int| #![trigger out@[oi], out@[oj]]
                    0 <= oi < oj < out@.len() ==> out@[oi].id < out@[oj].id,
                forall|k: int|
                    0 <= k < i && (#[trigger] self.elements()[k]).visible
                        ==> visible_is_listed(out@, self.elements(), k),
            decreases n - i,
        {
            let ghost prev = out@;
            proof {
                assert(self.elements().take(i + 1).drop_last() =~= self.elements().take(i as int));
                assert(self.elements().take(i + 1).last() == self.elements()[i as int]);
            }
            let e = &self.elements[i];
            if e.visible {
                proof {
                    assert forall|oi: int| 0 <= oi < out@.len()
                        implies (#[trigger] out@[oi]).id < self.elements()[i as int].id by {
                        assert(taken_from_visible(out@, self.elements(), i as int, oi));
                        let k = choose|k: int|
                            0 <= k < i && out@[oi] == (#[trigger] self.elements()[k])
                            && self.elements()[k].visible;
                        assert(self.elements()[k].id < self.elements()[i as int].id);
                    }
                }
                let copy = UiElement {
                    id: e.id,
                    text: e.text.clone(),
                    x: e.x,
                    y: e.y,
                    font_size: e.font_size,
                    color: e.color,
                    alignment: e.alignment.clone(),
                    visible: e.visible,
                };
                proof {
                    assert(copy == self.elements()[i as int]);
                }
                out.push(copy);
                proof {
                    assert forall|oi: int| 0 <= oi < out@.len()
                        implies #[trigger] taken_from_visible(
                        out@,
                        self.elements(),
                        i + 1,
                        oi,
                    ) by {
                        if oi < out@.len() - 1 {
                            assert(taken_from_visible(prev, self.elements(), i as int, oi));
                            let k = choose|k: int|
                                0 <= k < i && prev[oi] == (#[trigger] self.elements()[k])
                                && self.elements()[k].visible;
                            assert(out@[oi] == self.elements()[k]);
                        } else {
                            assert(out@[oi] == self.elements()[i as int]);
                        }
                    }
                    assert forall|k: int|
                        0 <= k < i + 1 && (#[trigger] self.elements()[k]).visible
                        implies visible_is_listed(out@, self.elements(), k) by {
                        if k == i {
                            assert(out@[out@.len() - 1] == self.elements()[i as int]);
                        } else {
                            assert(visible_is_listed(prev, self.elements(), k));
                            let oi = choose|oi: int|
                                0 <= oi < prev.len() && (#[trigger] prev[oi]) == self.elements()[k];
                            assert(out@[oi] == self.elements()[k]);
                        }
                    }
                }
            } else {
                proof {
                    assert forall|oi: int| 0 <= oi < out@.len()
                        implies #[trigger] taken_from_visible(
                        out@,
                        self.elements(),
                        i + 1,
                        oi,
                    ) by {
                        assert(taken_from_visible(out@, self.elements(), i as int, oi));
                        let k = choose|k: int|
                            0 <= k < i && out@[oi] == (#[trigger] self.elements()[k])
                            && self.elements()[k].visible;
                        assert(out@[oi] == self.elements()[k]);
                    }
                    assert forall|k: int|
                        0 <= k < i + 1 && (#[trigger] self.elements()[k]).visible
                        implies visible_is_listed(out@, self.elements(), k) by {
                        assert(k != i);
                    }
                }
            }
            i = i + 1;
        }
        proof {
            assert(self.elements().take(n as int) =~= self.elements());
        }
        out
    }

    /// How many elements are visible.
    pub fn visible_count(&self) -> (r: usize)
        ensures
            r == count_visible(self.elements()),
    {
        let n = self.elements.len();
        let mut count: usize = 0;
        let mut i: usize = 0;
        while i < n
            invariant
                n == self.elements@.len(),
                i <= n,
                count == count_visible(self.elements@.take(i as int)),
                count <= i,
            decreases n - i,
        {
            proof {
                assert(self.elements@.take(i + 1).drop_last() =~= self.elements@.take(i as int));
                assert(self.elements@.take(i + 1).last() == self.elements@[i as int]);
            }
            if self.elements[i].visible {
                count = count + 1;
            }
            i = i + 1;
        }
        proof {
            assert(self.elements@.take(n as int) =~= self.elements@);
        }
        count
    }
}

} // verus!
