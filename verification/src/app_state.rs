//! The state of the terminal interface: the token list with its highlighted
//! row, the token that the details pane shows, and the message line.

use vstd::prelude::*;
use crate::colors::{colored, green_code, paint_green, paint_red, paint_yellow, red_code, yellow_code};

verus! {

/// The state of the interface that its logic reads and changes. The row
/// that the list highlights is `list_state`, as the selection of the
/// list widget keeps it.
#[derive(Debug)]
pub struct App {
    pub selected_item: String,
    pub intervalo_consulta_item: u64,
    pub list_items: Vec<String>,
    pub selected_index: usize,
    pub list_state: Option<usize>,
    pub messages: String,
}

/// A key press, as the interface tells them apart.
#[derive(Debug, Clone, Copy, PartialEq, Eq, Structural)]
pub enum KeyInput {
    Esc,
    Char(char),
    Up,
    Down,
    Right,
    Other,
}

/// What the interface does after a key press.
#[derive(Debug)]
pub enum KeyAction {
    /// Leave the interface.
    Quit,
    /// Draw the interface again.
    Redraw,
    /// Load the stored data of the named token, then draw again.
    LoadSelected(String),
}

/// What looking a token up in the database gave.
#[derive(Debug)]
pub enum LookupOutcome {
    Found,
    Missing,
    Failed(String),
}

impl App {
    /// The list is not empty, the highlighted row (if any) is in it, and the
    /// selected token is the one on that row.
    pub open spec fn wf(&self) -> bool {
        &&& self.list_items.len() > 0
        &&& match self.list_state {
            Some(i) => i < self.list_items.len() && self.selected_item == self.list_items@[i as int],
            None => true,
        }
    }

    /// The state after moving the highlight one row up: the row above
    /// becomes the highlighted and selected one; at the first row, or
    /// without a highlighted row, nothing changes.
    pub open spec fn after_move_up(self) -> App {
        match self.list_state {
            Some(s) => if s > 0 {
                App {
                    list_state: Some((s - 1) as usize),
                    selected_item: self.list_items@[s - 1],
                    ..self
                }
            } else {
                self
            },
            None => self,
        }
    }

    /// The state after moving the highlight one row down: the row below
    /// becomes the highlighted and selected one; at the last row, or without
    /// a highlighted row, nothing changes.
    pub open spec fn after_move_down(self) -> App {
        match self.list_state {
            Some(s) => if s + 1 < self.list_items.len() {
                App {
                    list_state: Some((s + 1) as usize),
                    selected_item: self.list_items@[s + 1],
                    ..self
                }
            } else {
                self
            },
            None => self,
        }
    }

    /// What moving up needs: the row above the highlighted one exists.
    pub open spec fn can_move_up(&self) -> bool {
        self.list_state matches Some(s) ==> (s > 0 ==> s - 1 < self.list_items.len())
    }

    /// What moving down needs: a highlighted row means a non-empty list.
    pub open spec fn can_move_down(&self) -> bool {
        self.list_state is Some ==> self.list_items.len() > 0
    }

    /// The interface for the followed tokens, with the first one highlighted
    /// and selected. The list must not be empty.
    pub fn new(crypto_list: Vec<String>) -> (r: App)
        requires
            crypto_list@.len() > 0,
        ensures
            r.list_state == Some(0usize),
            r.selected_item == crypto_list@[0],
            r.list_items == crypto_list,
            r.intervalo_consulta_item == 0,
            r.selected_index == 0,
            r.messages@ == " "@,
            r.wf(),
    {
        let first = crypto_list[0].clone();
        App {
            selected_item: first,
            intervalo_consulta_item: 0,
            list_items: crypto_list,
            selected_index: 0,
            list_state: Some(0),
            messages: String::from_str(" "),
        }
    }

    /// Shows `msg`, in yellow, on the message line.
    pub fn add_message(&mut self, msg: String)
        ensures
            colored(yellow_code(), msg@, final(self).messages@),
            *final(self) == (App { messages: final(self).messages, ..*old(self) }),
    {
        self.messages = paint_yellow(msg);
    }

    /// The selection of the list, to be changed in place.
    pub fn list_state(&mut self) -> (r: &mut Option<usize>)
        ensures
            *r == old(self).list_state,
            *final(self) == (App { list_state: *final(r), ..*old(self) }),
    {
        &mut self.list_state
    }

    /// Moves the highlight one row up, and selects the token there.
    pub fn move_up(&mut self)
        requires
            old(self).can_move_up(),
        ensures
            *final(self) == old(self).after_move_up(),
            (match old(self).list_state {
                Some(s) => s > 0 ==> (final(self).list_state == Some((s - 1) as usize)
                    && final(self).selected_item == old(self).list_items@[s - 1]),
                None => true,
            }),
            !(old(self).list_state matches Some(s) && s > 0) ==> *final(self) == *old(self),
            *final(self) == (App {
                list_state: final(self).list_state,
                selected_item: final(self).selected_item,
                ..*old(self)
            }),
    {
        if let Some(selected) = self.list_state {
            if selected > 0 {
                self.list_state = Some(selected - 1);
                self.selected_item = self.list_items[selected - 1].clone();
            }
        }
    }

    /// Moves the highlight one row down, and selects the token there.
    pub fn move_down(&mut self)
        requires
            old(self).can_move_down(),
        ensures
            *final(self) == old(self).after_move_down(),
            (match old(self).list_state {
                Some(s) => s + 1 < old(self).list_items@.len() ==> (final(self).list_state == Some((s + 1) as usize)
                    && final(self).selected_item == old(self).list_items@[s + 1]),
                None => true,
            }),
            !(old(self).list_state matches Some(s) && s + 1 < old(self).list_items@.len()) ==> *final(self)
                == *old(self),
            *final(self) == (App {
                list_state: final(self).list_state,
                selected_item: final(self).selected_item,
                ..*old(self)
            }),
    {
        if let Some(selected) = self.list_state {
            if selected < self.list_items.len() - 1 {
                self.list_state = Some(selected + 1);
                self.selected_item = self.list_items[selected + 1].clone();
            }
        }
    }

    /// Reacts to a key press: `Esc` and `q` leave, the arrows up and down
    /// move the highlight, the right arrow asks for the data of the selected
    /// token, and any other key only draws again.
    pub fn handle_key(&mut self, key: KeyInput) -> (r: KeyAction)
        requires
            key == KeyInput::Up ==> old(self).can_move_up(),
            key == KeyInput::Down ==> old(self).can_move_down(),
        ensures
            (key == KeyInput::Esc || key == KeyInput::Char('q')) ==> r is Quit && *final(self)
                == *old(self),
            key == KeyInput::Up ==> r is Redraw && *final(self) == old(self).after_move_up(),
            key == KeyInput::Down ==> r is Redraw && *final(self) == old(self).after_move_down(),
            key == KeyInput::Right ==> (r matches KeyAction::LoadSelected(t) && t
                == old(self).selected_item) && *final(self) == *old(self),
            !(key == KeyInput::Esc || key == KeyInput::Char('q') || key == KeyInput::Up || key
                == KeyInput::Down || key == KeyInput::Right) ==> r is Redraw && *final(self)
                == *old(self),
    {
        match key {
            KeyInput::Esc => KeyAction::Quit,
            KeyInput::Char(c) => {
                if c == 'q' {
                    KeyAction::Quit
                } else {
                    KeyAction::Redraw
                }
            },
            KeyInput::Up => {
                self.move_up();
                KeyAction::Redraw
            },
            KeyInput::Down => {
                self.move_down();
                KeyAction::Redraw
            },
            KeyInput::Right => KeyAction::LoadSelected(self.selected_item.clone()),
            KeyInput::Other => KeyAction::Redraw,
        }
    }

    /// Reports on the message line what loading the data of `token` gave.
    pub fn record_lookup(&mut self, token: &str, outcome: LookupOutcome)
        ensures
            *final(self) == (App { messages: final(self).messages, ..*old(self) }),
            outcome is Found ==> exists|inner: Seq<char>|
                colored(green_code(), token@, inner) && #[trigger] colored(
                    yellow_code(),
                    "Datos cargados para: "@ + inner,
                    final(self).messages@,
                ),
            outcome is Missing ==> exists|inner: Seq<char>|
                colored(red_code(), token@, inner) && #[trigger] colored(
                    yellow_code(),
                    "No hay datos para: "@ + inner,
                    final(self).messages@,
                ),
            outcome matches LookupOutcome::Failed(e) ==> exists|inner: Seq<char>|
                colored(red_code(), e@, inner) && #[trigger] colored(
                    yellow_code(),
                    "Error al cargar datos: "@ + inner,
                    final(self).messages@,
                ),
    {
        match outcome {
            LookupOutcome::Found => {
                let inner = paint_green(String::from_str(token));
                let msg = String::from_str("Datos cargados para: ").concat(inner.as_str());
                self.add_message(msg);
                assert(colored(yellow_code(), "Datos cargados para: "@ + inner@, self.messages@));
            },
            LookupOutcome::Missing => {
                let inner = paint_red(String::from_str(token));
                let msg = String::from_str("No hay datos para: ").concat(inner.as_str());
                self.add_message(msg);
                assert(colored(yellow_code(), "No hay datos para: "@ + inner@, self.messages@));
            },
            LookupOutcome::Failed(e) => {
                let ghost err = e@;
                let inner = paint_red(e);
                let msg = String::from_str("Error al cargar datos: ").concat(inner.as_str());
                self.add_message(msg);
                assert(colored(red_code(), err, inner@));
                assert(colored(yellow_code(), "Error al cargar datos: "@ + inner@, self.messages@));
            },
        }
    }
}

/// A well-formed state can always move, and stays well formed: the
/// highlighted row never leaves the list and the selected token is always
/// the highlighted one.
pub proof fn lemma_moves_keep_wf(a: App)
    requires
        a.wf(),
    ensures
        a.can_move_up(),
        a.can_move_down(),
        a.after_move_up().wf(),
        a.after_move_down().wf(),
{
}

/// Moving down and then up again, from a row that has one below it, gives
/// back the state one started from; likewise moving up and then down from
/// a row that has one above it.
pub proof fn lemma_moves_undo_each_other(a: App)
    requires
        a.wf(),
    ensures
        (a.list_state matches Some(s) && s + 1 < a.list_items.len()) ==> a.after_move_down().after_move_up() == a,
        (a.list_state matches Some(s) && s > 0) ==> a.after_move_up().after_move_down() == a,
{
}

/// Moving down from a row that has one below it highlights and selects that
/// next row, and moving up from a row that has one above it highlights and
/// selects that previous row, whatever the length of the list; every other
/// move changes nothing, and no move touches anything but the highlight and
/// the selected token.
pub proof fn lemma_moves_step_by_one_row(a: App)
    ensures
        (match a.list_state {
            Some(s) => s + 1 < a.list_items@.len() ==> (a.after_move_down().list_state == Some((s + 1) as usize)
                && a.after_move_down().selected_item == a.list_items@[s + 1]),
            None => true,
        }),
        !(a.list_state matches Some(s) && s + 1 < a.list_items@.len()) ==> a.after_move_down() == a,
        (match a.list_state {
            Some(s) => s > 0 ==> (a.after_move_up().list_state == Some((s - 1) as usize)
                && a.after_move_up().selected_item == a.list_items@[s - 1]),
            None => true,
        }),
        !(a.list_state matches Some(s) && s > 0) ==> a.after_move_up() == a,
        a.after_move_down().list_items == a.list_items && a.after_move_down().messages == a.messages
            && a.after_move_down().intervalo_consulta_item == a.intervalo_consulta_item
            && a.after_move_down().selected_index == a.selected_index,
        a.after_move_up().list_items == a.list_items && a.after_move_up().messages == a.messages
            && a.after_move_up().intervalo_consulta_item == a.intervalo_consulta_item
            && a.after_move_up().selected_index == a.selected_index,
{
}

/// At the first row moving up changes nothing, and at the last row moving
/// down changes nothing.
pub proof fn lemma_moves_stop_at_the_ends(a: App)
    requires
        a.wf(),
    ensures
        a.list_state == Some(0usize) ==> a.after_move_up() == a,
        a.list_state == Some((a.list_items.len() - 1) as usize) ==> a.after_move_down() == a,
{
}

} // verus!
