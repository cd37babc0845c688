use vstd::prelude::*;

verus! {

/// The pages of the graphical front end.
#[derive(Debug, Clone, Copy, PartialEq, Eq, Structural)]
pub enum Page {
    /// The page shown at start.
    Main,
}

/// What the graphical front end keeps between two frames.
#[derive(Debug)]
pub struct State {
    /// The page on display.
    pub page: Page,
}

/// An event that the graphical front end hands to `App::update`.
#[derive(Debug, Clone, Copy)]
pub enum Message {
    /// A new frame is wanted; the main page has nothing to react to.
    Redraw,
}

/// The title of the main page.
pub open spec fn main_title() -> Seq<char> {
    "Main Page"@
}

/// The title of the main page.
pub fn title() -> (r: String)
    ensures
        r@ == main_title(),
{
    "Main Page".to_owned()
}

/// Reacts to an event on the main page, which has no state of its own.
pub fn update() {
}

/// The graphical front end: it shows the page that its state names.
pub struct App;

impl App {
    /// The window title: the title of the page on display.
    pub fn title(state: &State) -> (r: String)
        ensures
            r@ == main_title(),
    {
        match state.page {
            Page::Main => title(),
        }
    }

    /// Reacts to `message` on the page on display.
    pub fn update(state: &mut State, _message: Message)
        ensures
            final(state).page == old(state).page,
    {
        match state.page {
            Page::Main => update(),
        }
    }
}

} // verus!
