use vstd::prelude::*;

verus! {

/// Width of the display in pixels; option labels are centred within it.
pub const WIDTH: usize = 84;

/// The cursor after one "next" press: one step forward, wrapping to 0
/// past the last option.
pub open spec fn cursor_next(c: int, n: int) -> int {
    (c + 1) % n
}

/// The cursor after one "previous" press: one step back, wrapping to the
/// last option below 0.
pub open spec fn cursor_prev(c: int, n: int) -> int {
    (c + n - 1) % n
}

/// The cursor after `k` consecutive "next" presses.
pub open spec fn cursor_after_nexts(c: int, k: nat, n: int) -> int
    decreases k,
{
    if k == 0 {
        c
    } else {
        cursor_next(cursor_after_nexts(c, (k - 1) as nat, n), n)
    }
}

/// `k` "next" presses amount to adding `k` modulo the option count.
pub proof fn lemma_nexts_add(c: int, k: nat, n: int)
    requires
        n >= 1,
        0 <= c < n,
    ensures
        cursor_after_nexts(c, k, n) == (c + k) % n,
    decreases k,
{
    if k == 0 {
        vstd::arithmetic::div_mod::lemma_small_mod(c as nat, n as nat);
    } else {
        lemma_nexts_add(c, (k - 1) as nat, n);
        if n == 1 {
            vstd::arithmetic::div_mod::lemma_mod_division_less_than_divisor(c + k - 1, 1);
            vstd::arithmetic::div_mod::lemma_mod_division_less_than_divisor(c + k, 1);
            vstd::arithmetic::div_mod::lemma_mod_division_less_than_divisor((c + k - 1) % 1 + 1, 1);
        } else {
            vstd::arithmetic::div_mod::lemma_small_mod(1nat, n as nat);
            vstd::arithmetic::div_mod::lemma_add_mod_noop(c + k - 1, 1, n);
            vstd::arithmetic::div_mod::lemma_mod_twice(c + k - 1, n);
        }
    }
}

/// The cursor after an arbitrary sequence of navigation presses, applied
/// in order (`true` is "next", `false` is "previous").
pub open spec fn cursor_after_presses(c: int, presses: Seq<bool>, n: int) -> int
    decreases presses.len(),
{
    if presses.len() == 0 {
        c
    } else {
        let prev = cursor_after_presses(c, presses.drop_last(), n);
        if presses.last() {
            cursor_next(prev, n)
        } else {
            cursor_prev(prev, n)
        }
    }
}

/// However the two navigation buttons are pressed, the cursor never
/// leaves `[0, count)`.
pub proof fn lemma_cursor_stays_in_range(c: int, presses: Seq<bool>, n: int)
    requires
        n >= 1,
        0 <= c < n,
    ensures
        0 <= cursor_after_presses(c, presses, n) < n,
    decreases presses.len(),
{
    if presses.len() > 0 {
        lemma_cursor_stays_in_range(c, presses.drop_last(), n);
        let prev = cursor_after_presses(c, presses.drop_last(), n);
        vstd::arithmetic::div_mod::lemma_mod_division_less_than_divisor(prev + 1, n);
        vstd::arithmetic::div_mod::lemma_mod_division_less_than_divisor(prev + n - 1, n);
    }
}

/// As many "next" presses as there are options bring the cursor back to
/// where it started.
pub proof fn lemma_full_cycle(c: int, n: int)
    requires
        n >= 1,
        0 <= c < n,
    ensures
        cursor_after_nexts(c, n as nat, n) == c,
{
    lemma_nexts_add(c, n as nat, n);
    vstd::arithmetic::div_mod::lemma_mod_multiples_vanish(1, c, n);
    vstd::arithmetic::div_mod::lemma_small_mod(c as nat, n as nat);
}

/// Selection cursor over a fixed number of options. The held index is
/// always in `[0, OPTION_COUNT)`; both stepping directions wrap around.
pub struct Selected<const OPTION_COUNT: usize>(pub usize);

impl<const OPTION_COUNT: usize> Selected<OPTION_COUNT> {
    /// The cursor is a valid option index.
    pub open spec fn wf(self) -> bool {
        self.0 < OPTION_COUNT
    }

    /// Step forward, wrapping to the first option past the last.
    pub fn inc(&mut self)
        requires
            OPTION_COUNT >= 1,
            old(self).wf(),
        ensures
            final(self).wf(),
            final(self).0 == cursor_next(old(self).0 as int, OPTION_COUNT as int),
    {
        proof {
            lemma_mod_of_increment(old(self).0 as int, OPTION_COUNT as int);
        }
        self.0 += 1;
        if self.0 == OPTION_COUNT {
            self.0 = 0;
        }
    }

    /// Step back, wrapping to the last option below the first.
    pub fn dec(&mut self)
        requires
            OPTION_COUNT >= 1,
            old(self).wf(),
        ensures
            final(self).wf(),
            final(self).0 == cursor_prev(old(self).0 as int, OPTION_COUNT as int),
    {
        proof {
            lemma_mod_of_decrement(old(self).0 as int, OPTION_COUNT as int);
        }
        if self.0 == 0 {
            self.0 = OPTION_COUNT - 1;
        } else {
            self.0 -= 1;
        }
    }

    /// The index one past the cursor (with wraparound); the renderer shows
    /// this option in the second visible slot.
    pub fn peek(&self) -> (r: usize)
        requires
            OPTION_COUNT >= 1,
            self.wf(),
        ensures
            r == cursor_next(self.0 as int, OPTION_COUNT as int),
    {
        proof {
            lemma_mod_of_increment(self.0 as int, OPTION_COUNT as int);
        }
        if self.0 + 1 == OPTION_COUNT {
            0
        } else {
            self.0 + 1
        }
    }
}

/// `(c + 1) % n` written without `%`, for a cursor already below `n`.
proof fn lemma_mod_of_increment(c: int, n: int)
    requires
        n >= 1,
        0 <= c < n,
    ensures
        cursor_next(c, n) == if c + 1 == n { 0int } else { c + 1 },
{
    if c + 1 == n {
        vstd::arithmetic::div_mod::lemma_mod_self_0(n);
    } else {
        vstd::arithmetic::div_mod::lemma_small_mod((c + 1) as nat, n as nat);
    }
}

/// `(c + n - 1) % n` written without `%`, for a cursor already below `n`.
proof fn lemma_mod_of_decrement(c: int, n: int)
    requires
        n >= 1,
        0 <= c < n,
    ensures
        cursor_prev(c, n) == if c == 0 { n - 1 } else { c - 1 },
{
    if c == 0 {
        vstd::arithmetic::div_mod::lemma_small_mod((n - 1) as nat, n as nat);
    } else {
        vstd::arithmetic::div_mod::lemma_mod_multiples_vanish(1, c - 1, n);
        vstd::arithmetic::div_mod::lemma_small_mod((c - 1) as nat, n as nat);
    }
}

/// One entry of a menu: an opaque identifier handed back on selection,
/// and the label drawn for it.
#[derive(Clone, Copy)]
pub struct MenuOption<'a, OptionId: Copy> {
    pub id: OptionId,
    pub text: &'a str,
}

impl<'a, OptionId: Copy> MenuOption<'a, OptionId> {
    pub fn new(id: OptionId, text: &'a str) -> (r: Self)
        ensures
            r.id == id,
            r.text == text,
    {
        Self { id, text }
    }
}

/// What one polling tick of the menu decided.
pub enum MenuStep<OptionId> {
    /// The select button was pressed: the menu is done and hands back the
    /// identifier under the cursor.
    Chosen(OptionId),
    /// The cursor moved; the caller should redraw the option list.
    Moved,
    /// No relevant press this tick; nothing changed.
    Idle,
}

/// A scrollable option list with a header and a wrapping selection cursor.
/// Construction fixes the option count; `step` consumes one tick of
/// edge-triggered button state.
pub struct Menu<'a, OptionId: Copy, const OPTION_COUNT: usize> {
    pub header: &'a str,
    pub options: [MenuOption<'a, OptionId>; OPTION_COUNT],
    pub selected: Selected<OPTION_COUNT>,
}

impl<'a, OptionId: Copy, const OPTION_COUNT: usize> Menu<'a, OptionId, OPTION_COUNT> {
    /// The cursor points at a real option.
    pub open spec fn wf(self) -> bool {
        self.selected.wf()
    }

    /// A fresh menu has its cursor on the first option.
    pub fn new(header: &'a str, options: [MenuOption<'a, OptionId>; OPTION_COUNT]) -> (r: Self)
        requires
            OPTION_COUNT >= 1,
        ensures
            r.wf(),
            r.header == header,
            r.options == options,
            r.selected.0 == 0,
    {
        Self { header, options, selected: Selected::<OPTION_COUNT>(0) }
    }

    /// Reacts to one tick of button edges: button 0 selects the option
    /// under the cursor, button 1 moves the cursor forward, button 2 moves
    /// it back; earlier buttons take priority and anything else is idle.
    pub fn step(&mut self, pressed: &[bool; 4]) -> (r: MenuStep<OptionId>)
        requires
            OPTION_COUNT >= 1,
            old(self).wf(),
        ensures
            final(self).wf(),
            final(self).header == old(self).header,
            final(self).options == old(self).options,
            pressed[0] ==> r == MenuStep::Chosen(final(self).options[old(self).selected.0 as int].id)
                && final(self).selected == old(self).selected,
            !pressed[0] && pressed[1] ==> r == MenuStep::<OptionId>::Moved
                && final(self).selected.0 == cursor_next(old(self).selected.0 as int, OPTION_COUNT as int),
            !pressed[0] && !pressed[1] && pressed[2] ==> r == MenuStep::<OptionId>::Moved
                && final(self).selected.0 == cursor_prev(old(self).selected.0 as int, OPTION_COUNT as int),
            !pressed[0] && !pressed[1] && !pressed[2] ==> r == MenuStep::<OptionId>::Idle
                && final(self).selected == old(self).selected,
    {
        if pressed[0] {
            let opt = &self.options[self.selected.0];
            MenuStep::Chosen(opt.id)
        } else if pressed[1] {
            self.selected.inc();
            MenuStep::Moved
        } else if pressed[2] {
            self.selected.dec();
            MenuStep::Moved
        } else {
            MenuStep::Idle
        }
    }
}

/// The x position at which a run of text `width` pixels wide starts when
/// centred on the display.
pub fn center_text(width: usize) -> (r: usize)
    requires
        width <= WIDTH,
    ensures
        r == (WIDTH - width) / 2,
{
    (WIDTH - width) / 2
}

} // verus!
