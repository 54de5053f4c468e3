//! A menu: a column of labelled buttons, each with the value that a click
//! on it chooses.

use crate::geom::Rectangle;
use crate::geom::ScreenPoint;
use crate::input::Event;
use vstd::prelude::*;

verus! {

/// A button of a menu: its label and the rectangle that it covers.
#[derive(Debug)]
pub struct Button {
    pub text: String,
    pub background_location: Rectangle,
}

/// A button as a mathematical value.
pub struct ButtonView {
    pub text: Seq<char>,
    pub background_location: Rectangle,
}

impl View for Button {
    type V = ButtonView;

    open spec fn view(&self) -> ButtonView {
        ButtonView { text: self.text@, background_location: self.background_location }
    }
}

/// What a menu is made from: the labels with the values they choose, top
/// entry first, the corner where the first entry starts, and the width and
/// height of each entry.
pub struct PanelConfig<T> {
    pub options: Vec<(String, T)>,
    pub top_left: ScreenPoint,
    pub width: i32,
    pub text_size: i32,
}

impl<T> PanelConfig<T> {
    /// The top edge of the entry with index `key`: the entries follow each
    /// other downwards, each `text_size` high.
    pub open spec fn spec_entry_top(&self, key: int) -> int {
        self.top_left.y + key * self.text_size
    }

    /// The rectangle of the entry with index `key`.
    pub open spec fn spec_entry(&self, key: int) -> Rectangle {
        Rectangle {
            x: self.top_left.x,
            y: self.spec_entry_top(key) as i32,
            width: self.width,
            height: self.text_size,
        }
    }

    /// Whether the top edge of every entry can be written in `i32`.
    pub open spec fn fits(&self) -> bool {
        forall|key: int|
            0 <= key < self.options@.len() ==> i32::MIN <= #[trigger] self.spec_entry_top(key)
                <= i32::MAX
    }

    /// The menu that the configuration describes: one button for each
    /// option, in the same order.
    pub open spec fn layout(&self) -> Seq<(T, ButtonView)> {
        Seq::new(
            self.options@.len(),
            |key: int|
                (
                    self.options@[key].1,
                    ButtonView {
                        text: self.options@[key].0@,
                        background_location: self.spec_entry(key),
                    },
                ),
        )
    }
}

/// A menu.
#[derive(Debug)]
pub struct Panel<T> {
    widgets: Vec<(T, Button)>,
}

impl<T> View for Panel<T> {
    type V = Seq<(T, ButtonView)>;

    closed spec fn view(&self) -> Seq<(T, ButtonView)> {
        Seq::new(self.widgets@.len(), |i: int| (self.widgets@[i].0, self.widgets@[i].1@))
    }
}

/// The value of the first of the first `n` buttons that covers `cursor`.
pub open spec fn hit_below<T>(
    widgets: Seq<(T, ButtonView)>,
    cursor: ScreenPoint,
    n: nat,
) -> Option<T>
    decreases n,
{
    if n == 0 {
        None
    } else {
        match hit_below(widgets, cursor, (n - 1) as nat) {
            Some(value) => Some(value),
            None => if widgets[n - 1].1.background_location.spec_contains(cursor) {
                Some(widgets[n - 1].0)
            } else {
                None
            },
        }
    }
}

/// What an event chooses from a menu while the pointer is at `cursor`: a
/// press of the left button chooses the value of the first button under the
/// pointer. Nothing else chooses anything.
pub open spec fn clicked<T>(
    widgets: Seq<(T, ButtonView)>,
    cursor: ScreenPoint,
    event: Event,
) -> Option<T> {
    if event.spec_is_left_press() {
        hit_below(widgets, cursor, widgets.len())
    } else {
        None
    }
}

/// Once a button is hit, looking at more buttons finds the same one.
pub proof fn lemma_hit_below_stable<T>(
    widgets: Seq<(T, ButtonView)>,
    cursor: ScreenPoint,
    n: nat,
    larger: nat,
)
    requires
        n <= larger,
        hit_below(widgets, cursor, n) is Some,
    ensures
        hit_below(widgets, cursor, larger) == hit_below(widgets, cursor, n),
    decreases larger,
{
    if n < larger {
        lemma_hit_below_stable(widgets, cursor, n, (larger - 1) as nat);
    }
}

/// Whether button `i` is the first one that covers `cursor`.
pub open spec fn is_first_hit<T>(
    widgets: Seq<(T, ButtonView)>,
    cursor: ScreenPoint,
    i: int,
) -> bool {
    &&& 0 <= i < widgets.len()
    &&& widgets[i].1.background_location.spec_contains(cursor)
    &&& forall|j: int|
        0 <= j < i ==> !(#[trigger] widgets[j]).1.background_location.spec_contains(cursor)
}

/// What `hit_below` finds among the first `n` buttons is the value of the
/// first button that covers the cursor; it finds nothing only if none of
/// them covers the cursor.
pub proof fn lemma_hit_below<T>(widgets: Seq<(T, ButtonView)>, cursor: ScreenPoint, n: nat)
    requires
        n <= widgets.len(),
    ensures
        match hit_below(widgets, cursor, n) {
            Some(value) => exists|i: int|
                i < n && #[trigger] is_first_hit(widgets, cursor, i) && widgets[i].0 == value,
            None => forall|i: int|
                0 <= i < n ==> !(#[trigger] widgets[i]).1.background_location.spec_contains(cursor),
        },
    decreases n,
{
    if n > 0 {
        lemma_hit_below(widgets, cursor, (n - 1) as nat);
        if hit_below(widgets, cursor, (n - 1) as nat) is None {
            if widgets[n - 1].1.background_location.spec_contains(cursor) {
                assert(is_first_hit(widgets, cursor, n - 1));
            }
        }
    }
}

impl<T> Panel<T> {
    /// Lays the menu out: one button for each option, top entry first.
    pub fn new(config: PanelConfig<T>) -> (panel: Self)
        requires
            config.fits(),
        ensures
            panel@ == config.layout(),
    {
        let ghost layout = config.layout();
        let PanelConfig { options, top_left, width, text_size } = config;
        let mut widgets: Vec<(T, Button)> = Vec::new();
        let mut key: usize = 0;
        for option in it: options
            invariant
                key == it.index(),
                it.seq() == config.options@,
                config.fits(),
                layout == config.layout(),
                top_left == config.top_left,
                width == config.width,
                text_size == config.text_size,
                widgets@.len() == key,
                forall|i: int|
                    0 <= i < key ==> (#[trigger] widgets@[i]).0 == layout[i].0 && widgets@[i].1@
                        == layout[i].1,
        {
            let (text, ret) = option;
            assert(i32::MIN <= config.spec_entry_top(key as int) <= i32::MAX);
            assert(-0x8000_0000_0000_0000_0000_0000 <= key * text_size
                <= 0x8000_0000_0000_0000_0000_0000) by (nonlinear_arith)
                requires
                    0 <= key <= 0xffff_ffff_ffff_ffff,
                    -0x8000_0000 <= text_size <= 0x8000_0000,
            ;
            let height = top_left.y as i128 + key as i128 * text_size as i128;
            widgets.push(
                (
                    ret,
                    Button {
                        text,
                        background_location: Rectangle {
                            x: top_left.x,
                            y: height as i32,
                            width,
                            height: text_size,
                        },
                    },
                ),
            );
            assert(key < config.options.len());
            key += 1;
        }
        let panel = Self { widgets };
        assert(panel@ =~= layout);
        panel
    }

    /// What `event` chooses while the pointer is at `last_cursor_pos`: a
    /// press of the left button chooses the value of the first button under
    /// the pointer.
    pub fn event(&self, last_cursor_pos: ScreenPoint, event: &Event) -> (chosen: Option<&T>)
        ensures
            match chosen {
                Some(value) => clicked(self@, last_cursor_pos, *event) == Some(*value),
                None => clicked(self@, last_cursor_pos, *event) is None,
            },
            match chosen {
                Some(value) => event.spec_is_left_press() && exists|i: int| #[trigger]
                    is_first_hit(self@, last_cursor_pos, i) && self@[i].0 == *value,
                None => event.spec_is_left_press() ==> forall|i: int|
                    0 <= i < self@.len() ==> !(
                    #[trigger] self@[i]).1.background_location.spec_contains(last_cursor_pos),
            },
    {
        proof {
            lemma_hit_below(self@, last_cursor_pos, self@.len());
        }
        if event.is_left_press() {
            for i in 0..self.widgets.len()
                invariant
                    event.spec_is_left_press(),
                    hit_below(self@, last_cursor_pos, i as nat) is None,
            {
                if self.widgets[i].1.background_location.contains(last_cursor_pos) {
                    proof {
                        assert(self@[i as int].0 == self.widgets@[i as int].0);
                        lemma_hit_below_stable(
                            self@,
                            last_cursor_pos,
                            (i + 1) as nat,
                            self@.len(),
                        );
                        lemma_hit_below(self@, last_cursor_pos, self@.len());
                    }
                    return Some(&self.widgets[i].0);
                }
            }
        }
        None
    }

    /// The buttons of the menu, top entry first.
    pub fn buttons(&self) -> (buttons: Vec<Button>)
        ensures
            buttons@.len() == self@.len(),
            forall|i: int| 0 <= i < buttons@.len() ==> (#[trigger] buttons@[i])@ == self@[i].1,
    {
        let mut buttons: Vec<Button> = Vec::new();
        for i in 0..self.widgets.len()
            invariant
                buttons@.len() == i,
                forall|j: int| 0 <= j < i ==> (#[trigger] buttons@[j])@ == self@[j].1,
        {
            let button = &self.widgets[i].1;
            buttons.push(
                Button {
                    text: button.text.clone(),
                    background_location: button.background_location,
                },
            );
        }
        buttons
    }
}

} // verus!
