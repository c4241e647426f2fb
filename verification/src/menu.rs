use vstd::prelude::*;

verus! {

/// Gamepad bit for the primary action button.
pub const BUTTON_1: u8 = 1;

/// Gamepad bit for up.
pub const BUTTON_UP: u8 = 64;

/// Gamepad bit for down.
pub const BUTTON_DOWN: u8 = 128;

/// Mouse-buttons bit for the left button.
pub const MOUSE_LEFT: u8 = 1;

/// Leaving the title screen: start a session from this seed.
#[derive(Debug, Clone, Copy, PartialEq, Eq, Structural)]
pub enum Transition {
    Start { rng_seed: u64 },
}

/// An entry of the title menu.
#[derive(Debug, Clone, Copy, PartialEq, Eq, Structural)]
pub enum MenuItem {
    Start,
    Freeplay,
}

/// One frame's input, as the host read it from its registers.
#[derive(Debug, Clone, Copy, PartialEq, Eq, Structural)]
pub struct InputSnapshot {
    pub gamepad: u8,
    pub mousebuttons: u8,
    pub mouse_x: i32,
    pub mouse_y: i32,
}

/// The title screen: two selectable entries, keyboard and mouse navigation,
/// and a short loading hand-off once a choice is made.
pub struct Menu {
    pub items: Vec<MenuItem>,
    pub selected_item: Option<MenuItem>,
    pub ticks: u32,
    pub previous_gamepad: u8,
    pub previous_mousebuttons: u8,
    pub loading_transition: Option<Transition>,
}

impl Menu {
    /// A fresh title screen with nothing selected.
    pub fn new() -> (m: Menu)
        ensures
            m.items@ == seq![MenuItem::Start, MenuItem::Freeplay],
            m.selected_item is None,
            m.ticks == 0,
            m.previous_gamepad == 0,
            m.previous_mousebuttons == 0,
            m.loading_transition is None,
    {
        let mut items: Vec<MenuItem> = Vec::new();
        items.push(MenuItem::Start);
        items.push(MenuItem::Freeplay);
        proof {
            assert(items@ =~= seq![MenuItem::Start, MenuItem::Freeplay]);
        }
        Menu {
            items,
            selected_item: None,
            ticks: 0,
            previous_gamepad: 0,
            previous_mousebuttons: 0,
            loading_transition: None,
        }
    }

    /// One frame of menu logic: once a choice was made, it is handed out and
    /// nothing else happens; otherwise down/up move the selection, hovering
    /// selects, and a fresh button or mouse click arms the loading hand-off
    /// (the fixed campaign seed for Start, the frame count for Freeplay).
    pub fn update(&mut self, input: InputSnapshot) -> (res: Option<Transition>)
        requires
            old(self).ticks < u32::MAX,
            old(self).items@.len() == 2,
        ensures
            old(self).loading_transition is Some ==> res == old(self).loading_transition
                && *final(self) == *old(self),
            old(self).loading_transition is None ==> {
                &&& res is None
                &&& final(self).ticks == old(self).ticks + 1
                &&& final(self).previous_gamepad == input.gamepad
                &&& final(self).previous_mousebuttons == input.mousebuttons
                &&& final(self).items == old(self).items
                &&& ((input.gamepad & BUTTON_1 == 0 || old(self).previous_gamepad & BUTTON_1 != 0)
                    && (input.mousebuttons & MOUSE_LEFT == 0 || old(self).previous_mousebuttons
                    & MOUSE_LEFT != 0)) ==> final(self).loading_transition is None
                &&& match final(self).loading_transition {
                    Some(Transition::Start { rng_seed }) => rng_seed == 1 || rng_seed as int == old(
                        self,
                    ).ticks + 1,
                    None => true,
                }
            },
    {
        if self.loading_transition.is_some() {
            return self.loading_transition;
        }
        let gamepad = input.gamepad;
        let mousebuttons = input.mousebuttons;
        self.ticks = self.ticks + 1;
        let mouse_x = input.mouse_x;
        let mouse_y = input.mouse_y;
        let hovered_item: Option<MenuItem> = if mouse_x > 40 && mouse_y > 130 && mouse_x < 120
            && mouse_y < 142 {
            Some(self.items[0])
        } else if mouse_x > 40 && mouse_y > 142 && mouse_x < 120 && mouse_y < 154 {
            Some(self.items[1])
        } else {
            None
        };
        if gamepad & BUTTON_DOWN != 0 && self.previous_gamepad & BUTTON_DOWN == 0 {
            let pos = self.selected_position();
            match pos {
                Some(i) => {
                    if i + 1 < self.items.len() {
                        self.selected_item = Some(self.items[i + 1]);
                    }
                },
                None => {
                    self.selected_item = Some(self.items[0]);
                },
            }
        } else if gamepad & BUTTON_UP != 0 && self.previous_gamepad & BUTTON_UP == 0 {
            let pos = self.selected_position();
            match pos {
                Some(i) => {
                    if i > 0 {
                        self.selected_item = Some(self.items[i - 1]);
                    }
                },
                None => {
                    self.selected_item = Some(self.items[0]);
                },
            }
        } else if hovered_item.is_some() {
            self.selected_item = hovered_item;
        }
        let clicked_item: Option<MenuItem> = if gamepad & BUTTON_1 != 0 && self.previous_gamepad
            & BUTTON_1 == 0 {
            self.selected_item
        } else if mousebuttons & MOUSE_LEFT != 0 && self.previous_mousebuttons & MOUSE_LEFT == 0 {
            hovered_item
        } else {
            None
        };
        self.loading_transition = match clicked_item {
            Some(MenuItem::Start) => Some(Transition::Start { rng_seed: 1 }),
            Some(MenuItem::Freeplay) => Some(Transition::Start { rng_seed: self.ticks as u64 }),
            None => None,
        };
        if self.selected_item.is_none() && gamepad & BUTTON_1 != 0 && self.previous_gamepad
            & BUTTON_1 == 0 {
            self.selected_item = Some(self.items[0]);
        }
        self.previous_gamepad = gamepad;
        self.previous_mousebuttons = mousebuttons;
        None
    }

    /// Index of the selected entry among the items, if one is selected.
    fn selected_position(&self) -> (res: Option<usize>)
        requires
            self.items@.len() == 2,
        ensures
            match res {
                Some(i) => i < 2,
                None => true,
            },
    {
        match self.selected_item {
            Some(sel) => {
                if self.items[0] == sel {
                    Some(0)
                } else if self.items[1] == sel {
                    Some(1)
                } else {
                    None
                }
            },
            None => None,
        }
    }
}

} // verus!
