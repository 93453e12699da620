//! A menu whose options are walked through with the keyboard: the state of
//! the selection, the screen that shows it, and the meaning of a typed line.

use vstd::prelude::*;
use vstd::string::*;

use crate::command::Command;
use crate::utils::Color;

verus! {

/// The appearance of a menu.
#[derive(Debug, Clone, Copy, PartialEq, Eq, Structural)]
pub struct Style {
    /// The colour the menu is drawn in.
    pub color: Color,
    /// The character that marks the selected option.
    pub selected_prefix: char,
}

impl Style {
    /// The style of a menu for which nothing was chosen: white, with `>` as
    /// the mark.
    pub open spec fn standard() -> Style {
        Style { color: Color::White, selected_prefix: '>' }
    }
}

impl Default for Style {
    fn default() -> (style: Style)
        ensures
            style == Style::standard(),
    {
        Style { color: Color::White, selected_prefix: '>' }
    }
}

/// Collects the choices for a [`Style`]; what is not chosen keeps its standard
/// value.
pub struct StyleBuilder {
    color: Option<Color>,
    selected_prefix: Option<char>,
}

impl StyleBuilder {
    /// The style that `build` returns for this builder.
    pub closed spec fn built(self) -> Style {
        Style {
            color: match self.color {
                Some(color) => color,
                None => Style::standard().color,
            },
            selected_prefix: match self.selected_prefix {
                Some(prefix) => prefix,
                None => Style::standard().selected_prefix,
            },
        }
    }

    /// A builder with nothing chosen yet.
    pub fn new() -> (builder: StyleBuilder)
        ensures
            builder.built() == Style::standard(),
    {
        StyleBuilder { color: None, selected_prefix: None }
    }

    /// Chooses the colour of the menu.
    pub fn color(self, color: Color) -> (builder: StyleBuilder)
        ensures
            builder.built() == (Style { color: color, ..self.built() }),
    {
        let mut builder = self;
        builder.color = Some(color);
        builder
    }

    /// Chooses the character that marks the selected option.
    pub fn selected_prefix(self, prefix: char) -> (builder: StyleBuilder)
        ensures
            builder.built() == (Style { selected_prefix: prefix, ..self.built() }),
    {
        let mut builder = self;
        builder.selected_prefix = Some(prefix);
        builder
    }

    /// The style with every choice made so far and the standard value for the
    /// rest.
    pub fn build(self) -> (style: Style)
        ensures
            style == self.built(),
    {
        Style {
            color: match self.color {
                Some(color) => color,
                None => Color::White,
            },
            selected_prefix: match self.selected_prefix {
                Some(prefix) => prefix,
                None => '>',
            },
        }
    }
}

/// What the caller of a menu does after a command.
#[derive(Debug, Clone, Copy, PartialEq, Eq, Structural)]
pub enum Response {
    /// Draw the screen again and read the next line.
    Redraw,
    /// Read the next line; the screen still holds.
    Wait,
    /// Stop: the user took the option at this place.
    Chosen(usize),
}

/// What a menu is made of: its options in order, the place of the selected
/// one, and its style.
pub struct MenuView {
    /// The text of each option.
    pub options: Seq<Seq<char>>,
    /// The place of the selected option among `options`.
    pub selected_index: nat,
    /// The appearance of the menu.
    pub style: Style,
}

impl MenuView {
    /// The selection points at one of the options; in a menu without options
    /// it rests at the first place.
    pub open spec fn wf(self) -> bool {
        if self.options.len() == 0 {
            self.selected_index == 0
        } else {
            self.selected_index < self.options.len()
        }
    }

    /// The menu with the selection moved one option up, from the first option
    /// round to the last.
    pub open spec fn previous(self) -> MenuView {
        MenuView {
            selected_index: if self.selected_index > 0 {
                (self.selected_index - 1) as nat
            } else {
                (self.options.len() - 1) as nat
            },
            ..self
        }
    }

    /// The menu with the selection moved one option down, from the last option
    /// round to the first.
    pub open spec fn next(self) -> MenuView {
        MenuView {
            selected_index: ((self.selected_index as int + 1) % (self.options.len() as int)) as nat,
            ..self
        }
    }

    /// The menu after `command`: the selection moves for `Up` and `Down` and
    /// stays for the rest.
    pub open spec fn after(self, command: Command) -> MenuView {
        match command {
            Command::Up => self.previous(),
            Command::Down => self.next(),
            _ => self,
        }
    }

    /// What is owed to the user after `command`: a fresh screen when the
    /// selection was moved, the place of the selected option when it was
    /// submitted, and nothing but the next line of input otherwise.
    pub open spec fn response(self, command: Command) -> Response {
        match command {
            Command::Up => Response::Redraw,
            Command::Down => Response::Redraw,
            Command::Submit => Response::Chosen(self.selected_index as usize),
            Command::Unknown => Response::Wait,
        }
    }

    /// The line that shows the option at place `at`: the mark and a space if
    /// the option is the selected one, two spaces if not, then the option's
    /// text and a line feed.
    pub open spec fn option_line(self, at: int) -> Seq<char> {
        (if at == self.selected_index {
            seq![self.style.selected_prefix, ' ']
        } else {
            seq![' ', ' ']
        }) + self.options[at] + seq!['\n']
    }

    /// The lines of the first `count` options, one after the other.
    pub open spec fn option_lines(self, count: nat) -> Seq<char>
        decreases count,
    {
        if count == 0 {
            Seq::empty()
        } else {
            self.option_lines((count - 1) as nat) + self.option_line(count - 1)
        }
    }

    /// What stands above the options: the sequences that clear the screen and
    /// move the cursor to its top, the escape sequence of the menu's colour,
    /// and the line that explains the keys, followed by an empty line.
    pub open spec fn heading(self) -> Seq<char> {
        CLEAR_SCREEN@ + self.style.color.ansi_code() + seq!['\n'] + KEY_HELP@ + seq!['\n', '\n']
    }

    /// The whole screen: the heading, then one line for each option.
    pub open spec fn screen(self) -> Seq<char> {
        self.heading() + self.option_lines(self.options.len())
    }
}

/// Clears the screen and moves the cursor to its top left corner.
pub const CLEAR_SCREEN: &'static str = "\x1B[2J\x1B[1;1H";

/// Tells the user which keys move the selection and which one submits it.
pub const KEY_HELP: &'static str =
    "'w' for up, 's' for down, then press Enter to select. Double Enter to submit.";

/// A menu of options, one of which is selected.
pub struct InteractiveMenu {
    options: Vec<String>,
    selected_index: usize,
    style: Style,
}

impl View for InteractiveMenu {
    type V = MenuView;

    closed spec fn view(&self) -> MenuView {
        MenuView {
            options: self.options@.map_values(|option: String| option@),
            selected_index: self.selected_index as nat,
            style: self.style,
        }
    }
}

impl InteractiveMenu {
    #[verifier::type_invariant]
    spec fn selection_in_range(self) -> bool {
        self@.wf()
    }

    /// A menu of `options` with the first one selected.
    pub fn new(options: Vec<String>, style: Style) -> (menu: InteractiveMenu)
        ensures
            menu@ == (MenuView {
                options: options@.map_values(|option: String| option@),
                selected_index: 0,
                style: style,
            }),
    {
        InteractiveMenu { options, selected_index: 0, style }
    }

    /// How many options the menu has.
    pub fn option_count(&self) -> (count: usize)
        ensures
            count == self@.options.len(),
    {
        self.options.len()
    }

    /// The place of the selected option.
    pub fn selected_index(&self) -> (index: usize)
        ensures
            index == self@.selected_index,
            self@.wf(),
    {
        proof {
            use_type_invariant(self);
        }
        self.selected_index
    }

    /// Moves the selection one option up, from the first option round to the
    /// last.
    pub fn previous(&mut self)
        requires
            old(self)@.options.len() > 0,
        ensures
            final(self)@ == old(self)@.previous(),
            final(self)@.wf(),
    {
        proof {
            use_type_invariant(&*self);
        }
        if self.selected_index > 0 {
            self.selected_index -= 1;
        } else {
            self.selected_index = self.options.len() - 1;
        }
    }

    /// Moves the selection one option down, from the last option round to the
    /// first.
    pub fn next(&mut self)
        requires
            old(self)@.options.len() > 0,
        ensures
            final(self)@ == old(self)@.next(),
            final(self)@.wf(),
    {
        proof {
            use_type_invariant(&*self);
            assert(self@.options.len() == self.options.len());
        }
        self.selected_index = (self.selected_index + 1) % self.options.len();
    }

    /// Carries out `command` and says what the caller does next. Moving the
    /// selection takes a menu that has options.
    pub fn apply(&mut self, command: Command) -> (response: Response)
        requires
            command is Up || command is Down ==> old(self)@.options.len() > 0,
        ensures
            final(self)@ == old(self)@.after(command),
            response == old(self)@.response(command),
            final(self)@.wf(),
    {
        proof {
            use_type_invariant(&*self);
        }
        match command {
            Command::Up => {
                self.previous();
                Response::Redraw
            },
            Command::Down => {
                self.next();
                Response::Redraw
            },
            Command::Submit => Response::Chosen(self.selected_index),
            Command::Unknown => Response::Wait,
        }
    }

    /// Draws the screen that shows the menu as it stands.
    pub fn display(&self) -> (screen: String)
        ensures
            screen@ == self@.screen(),
    {
        let mut screen = String::new();
        screen.append(CLEAR_SCREEN);
        screen.append(self.style.color.to_ansi_code());
        screen.push('\n');
        screen.append(KEY_HELP);
        screen.push('\n');
        screen.push('\n');
        assert(screen@ =~= self@.heading());
        let count: usize = self.options.len();
        let mut at: usize = 0;
        while at < count
            invariant
                at <= count,
                count == self.options.len(),
                count == self@.options.len(),
                screen@ == self@.heading() + self@.option_lines(at as nat),
            decreases count - at,
        {
            let ghost before = screen@;
            if at == self.selected_index {
                screen.push(self.style.selected_prefix);
                screen.push(' ');
            } else {
                screen.push(' ');
                screen.push(' ');
            }
            screen.append(self.options[at].as_str());
            screen.push('\n');
            at += 1;
            assert(screen@ =~= before + self@.option_line(at - 1));
            assert(screen@ =~= self@.heading() + self@.option_lines(at as nat));
        }
        screen
    }
}

/// Moving the selection keeps it on one of the options, and moving it up and
/// then down, or down and then up, brings it back to where it was: the
/// options lie in a circle.
pub proof fn lemma_moves_are_circular(menu: MenuView)
    requires
        menu.wf(),
        menu.options.len() > 0,
    ensures
        menu.previous().wf(),
        menu.next().wf(),
        menu.previous().next() == menu,
        menu.next().previous() == menu,
        menu.selected_index == 0 ==> menu.previous().selected_index == menu.options.len() - 1,
        menu.selected_index == menu.options.len() - 1 ==> menu.next().selected_index == 0,
{
    let count = menu.options.len() as int;
    let at = menu.selected_index as int;
    if at + 1 < count {
        assert((at + 1) % count == at + 1) by (nonlinear_arith)
            requires
                0 <= at + 1 < count,
        ;
    } else {
        assert((at + 1) % count == 0) by (nonlinear_arith)
            requires
                at + 1 == count,
                count > 0,
        ;
    }
    if at > 0 {
        assert(at % count == at) by (nonlinear_arith)
            requires
                0 <= at < count,
        ;
    } else {
        assert((count - 1 + 1) % count == 0) by (nonlinear_arith)
            requires
                count > 0,
        ;
    }
}

} // verus!
