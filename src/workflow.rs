//! The screens of the application, the store of sales with its single draft, and
//! the state machine that interprets the instructions bubbled up from a sale screen.
use vstd::prelude::*;
use std::collections::HashMap;
use vstd::string::StringExecFns;
use crate::action::{Action, Effect};
use crate::sale::{
    EditMessage, Hotkey, Instruction, Message, Mode, Sale, adds_item, handle_hotkey,
    hotkey_action, items_wf, may_add_item, message_effect, message_instruction, update,
    update_post,
};

verus! {

/// What is on screen: the list of sales, or one sale by id.
#[derive(Clone, Copy, Debug, PartialEq, Eq, Structural)]
pub enum Screen {
    List,
    Sale(Mode, usize),
}

/// Messages of the list screen.
#[derive(Clone, Copy, Debug, PartialEq, Eq, Structural)]
pub enum ListMessage {
    NewSale,
    SelectSale(usize),
}

/// An input to the application.
#[derive(Clone, Debug)]
pub enum Event {
    List(ListMessage),
    Sale(usize, Message),
    Hotkey(Hotkey),
}

/// The committed sales, the one draft, the id counters and the current screen.
pub struct App {
    pub screen: Screen,
    pub sales: HashMap<usize, Sale>,
    pub pending_id: usize,
    pub pending_sale: Sale,
    pub next_sale_id: usize,
    pub next_item_id: usize,
}

/// The screen after an instruction from the sale with id `id`.
pub open spec fn screen_after(screen: Screen, id: usize, ins: Option<Instruction>) -> Screen {
    match ins {
        None => screen,
        Some(Instruction::Back) => match screen {
            Screen::List => Screen::List,
            Screen::Sale(Mode::Edit, s) => Screen::Sale(Mode::View, s),
            Screen::Sale(Mode::View, _) => Screen::List,
        },
        Some(Instruction::StartEdit) => Screen::Sale(Mode::Edit, id),
        Some(Instruction::Save) => Screen::Sale(Mode::View, id),
        Some(Instruction::Cancel) => Screen::Sale(Mode::View, id),
    }
}

/// Escape leaves edit mode for view mode, view mode for the list, and does nothing
/// on the list.
pub open spec fn escape_from(screen: Screen) -> Screen {
    match screen {
        Screen::List => Screen::List,
        Screen::Sale(Mode::Edit, id) => Screen::Sale(Mode::View, id),
        Screen::Sale(Mode::View, _) => Screen::List,
    }
}

pub open spec fn effect_seq(e: Option<Effect>) -> Seq<Effect> {
    match e {
        Some(x) => seq![x],
        None => Seq::empty(),
    }
}

/// The text of `a` followed by the text of `b`.
fn concat(a: &str, b: &str) -> (r: String)
    ensures
        r@ == a@ + b@,
{
    let mut r = String::from_str(a);
    r.append(b);
    r
}

/// What `App::update` does: `a` before, `b` after, `r` the deferred effects in
/// the order they are to run.
pub open spec fn event_post(a: App, b: App, event: Event, r: Seq<Effect>) -> bool {
    match event {
        Event::List(ListMessage::NewSale) => b.same_store(a) && b.screen == Screen::Sale(
            Mode::Edit,
            a.pending_id,
        ) && r.len() == 0,
        Event::List(ListMessage::SelectSale(id)) => b.same_store(a) && b.screen == Screen::Sale(
            Mode::View,
            id,
        ) && r.len() == 0,
        Event::Hotkey(h) => match a.screen {
            Screen::List => b.same_store(a) && b.screen == a.screen && r.len() == 0,
            Screen::Sale(mode, id) => b.same_store(a) && b.screen == screen_after(
                a.screen,
                id,
                hotkey_action(mode, h).instruction,
            ) && r == effect_seq(hotkey_action(mode, h).effect),
        },
        Event::Sale(id, m) => {
            let ins = message_instruction(m);
            let eff = message_effect(a.sale_at(id), a.next_item_id, m);
            &&& b.screen == screen_after(a.screen, id, ins)
            &&& r == effect_seq(eff)
            &&& if ins == Some(Instruction::Save) && id == a.pending_id {
                b.committed_from(a)
            } else if id == a.pending_id {
                &&& b.sales@ == a.sales@
                &&& b.pending_id == a.pending_id
                &&& b.next_sale_id == a.next_sale_id
                &&& update_post(
                    a.pending_sale,
                    b.pending_sale,
                    a.next_item_id,
                    b.next_item_id,
                    m,
                    Action { instruction: ins, effect: eff },
                )
            } else {
                &&& b.sales@ == a.sales@.insert(id, b.sales@[id])
                &&& b.pending_id == a.pending_id
                &&& b.pending_sale == a.pending_sale
                &&& b.next_sale_id == a.next_sale_id
                &&& update_post(
                    a.sales@[id],
                    b.sales@[id],
                    a.next_item_id,
                    b.next_item_id,
                    m,
                    Action { instruction: ins, effect: eff },
                )
            }
        },
    }
}

/// The ids an event refers to exist.
pub open spec fn event_refers_to_sales(app: App, event: Event) -> bool {
    match event {
        Event::List(ListMessage::SelectSale(id)) => app.has_sale(id),
        Event::Sale(id, _) => app.has_sale(id),
        _ => true,
    }
}

impl App {
    /// The id refers to the draft or to a committed sale.
    pub open spec fn has_sale(self, id: usize) -> bool {
        id == self.pending_id || self.sales@.contains_key(id)
    }

    /// The sale an id refers to: the draft when it is the draft's id.
    pub open spec fn sale_at(self, id: usize) -> Sale {
        if id == self.pending_id {
            self.pending_sale
        } else {
            self.sales@[id]
        }
    }

    pub open spec fn wf(self) -> bool {
        &&& !self.sales@.contains_key(self.pending_id)
        &&& self.pending_id < self.next_sale_id
        &&& forall|k: usize| #[trigger] self.sales@.contains_key(k) ==> k < self.next_sale_id
        &&& match self.screen {
            Screen::List => true,
            Screen::Sale(_, id) => self.has_sale(id),
        }
        &&& items_wf(self.pending_sale.items@, self.next_item_id as nat)
        &&& forall|k: usize| #[trigger]
            self.sales@.contains_key(k) ==> items_wf(self.sales@[k].items@, self.next_item_id as nat)
    }

    /// The id counters can move on as far as the event needs: the item counter for a
    /// message that may add an item, the sale counter for saving the draft.
    pub open spec fn has_room_for(self, event: Event) -> bool {
        match event {
            Event::Sale(id, m) => {
                &&& adds_item(m) ==> self.next_item_id < usize::MAX
                &&& (id == self.pending_id && message_instruction(m) == Some(Instruction::Save))
                    ==> self.next_sale_id < usize::MAX
            },
            _ => true,
        }
    }

    /// The draft `a.pending_sale` was committed under its id, and a blank draft took
    /// the next id.
    pub open spec fn committed_from(self, a: App) -> bool {
        &&& self.sales@ == a.sales@.insert(a.pending_id, a.pending_sale)
        &&& self.pending_id == a.next_sale_id
        &&& self.next_sale_id == a.next_sale_id + 1
        &&& self.pending_sale.is_blank()
        &&& self.next_item_id == a.next_item_id
    }

    /// The sales and counters are those of `a`; the screen may differ.
    pub open spec fn same_store(self, a: App) -> bool {
        &&& self.sales@ == a.sales@
        &&& self.pending_id == a.pending_id
        &&& self.pending_sale == a.pending_sale
        &&& self.next_sale_id == a.next_sale_id
        &&& self.next_item_id == a.next_item_id
    }

    /// The list screen, no committed sales, and a blank draft with id 0.
    pub fn new() -> (r: Self)
        ensures
            r.wf(),
            r.screen == Screen::List,
            r.sales@.is_empty(),
            r.pending_id == 0,
            r.pending_sale.is_blank(),
            r.next_sale_id == 1,
            r.next_item_id == 0,
    {
        App {
            screen: Screen::List,
            sales: HashMap::new(),
            pending_id: 0,
            pending_sale: Sale::new(),
            next_sale_id: 1,
            next_item_id: 0,
        }
    }

    pub fn has_sale_id(&self, id: usize) -> (r: bool)
        ensures
            r == self.has_sale(id),
    {
        id == self.pending_id || self.sales.contains_key(&id)
    }

    pub fn can_allocate(&self, event: &Event) -> (r: bool)
        ensures
            r == self.has_room_for(*event),
    {
        match event {
            Event::Sale(id, m) => {
                let items_ok = !may_add_item(m) || self.next_item_id < usize::MAX;
                let saves = match m {
                    Message::Edit(EditMessage::Save) => true,
                    _ => false,
                };
                let sales_ok = !(*id == self.pending_id && saves) || self.next_sale_id < usize::MAX;
                items_ok && sales_ok
            },
            _ => true,
        }
    }

    /// The sale an id refers to: the draft when it is the draft's id, else that
    /// committed sale.
    pub fn sale(&self, id: usize) -> (r: &Sale)
        requires
            self.wf(),
            self.has_sale(id),
        ensures
            *r == self.sale_at(id),
    {
        if id == self.pending_id {
            &self.pending_sale
        } else {
            self.sales.get(&id).unwrap()
        }
    }

    /// The window title: the list, or the sale on screen ("New Sale" for the draft)
    /// with the mode.
    pub open spec fn title_text(self) -> Seq<char> {
        match self.screen {
            Screen::List => "iced • Receipt Breakdown"@,
            Screen::Sale(mode, id) => {
                let name = if id == self.pending_id {
                    "New Sale"@
                } else {
                    self.sales@[id].name@
                };
                match mode {
                    Mode::View => "iced • "@ + name,
                    Mode::Edit => "iced • "@ + name + " • Edit"@,
                }
            },
        }
    }

    pub fn title(&self) -> (r: String)
        requires
            self.wf(),
        ensures
            r@ == self.title_text(),
    {
        match self.screen {
            Screen::List => "iced • Receipt Breakdown".to_string(),
            Screen::Sale(mode, id) => {
                let name: &str = if id == self.pending_id {
                    "New Sale"
                } else {
                    match self.sales.get(&id) {
                        Some(sale) => sale.name.as_str(),
                        None => "",
                    }
                };
                match mode {
                    Mode::View => concat("iced • ", name),
                    Mode::Edit => {
                        let head = concat("iced • ", name);
                        concat(head.as_str(), " • Edit")
                    },
                }
            },
        }
    }

    /// Applies an event. Edits go to the draft when the id is the draft's, else to
    /// that committed sale; an instruction is then carried out, and the effects come
    /// back in the order they are to run: those of the instruction first (carrying
    /// one out asks for none), then the one the message asked for.
    pub fn update(&mut self, event: Event) -> (r: Vec<Effect>)
        requires
            old(self).wf(),
            old(self).has_room_for(event),
            event_refers_to_sales(*old(self), event),
        ensures
            final(self).wf(),
            event_post(*old(self), *final(self), event, r@),
            event matches Event::Hotkey(Hotkey::Escape) ==> final(self).screen == escape_from(
                old(self).screen,
            ),
    {
        let mut effects: Vec<Effect> = Vec::new();
        match event {
            Event::List(ListMessage::NewSale) => {
                self.screen = Screen::Sale(Mode::Edit, self.pending_id);
            },
            Event::List(ListMessage::SelectSale(id)) => {
                self.screen = Screen::Sale(Mode::View, id);
            },
            Event::Hotkey(hotkey) => match self.screen {
                Screen::List => {},
                Screen::Sale(mode, sale_id) => {
                    let action = if sale_id == self.pending_id {
                        handle_hotkey(&self.pending_sale, mode, hotkey)
                    } else {
                        match self.sales.get(&sale_id) {
                            Some(sale) => handle_hotkey(sale, mode, hotkey),
                            None => handle_hotkey(&self.pending_sale, mode, hotkey),
                        }
                    };
                    if let Some(instruction) = action.instruction {
                        self.perform(sale_id, instruction);
                    }
                    if let Some(effect) = action.effect {
                        effects.push(effect);
                    }
                    assert(effects@ =~= effect_seq(action.effect));
                },
            },
            Event::Sale(sale_id, msg) => {
                let action = if sale_id == self.pending_id {
                    update(&mut self.pending_sale, msg, &mut self.next_item_id)
                } else {
                    let mut sale = self.sales.remove(&sale_id).unwrap();
                    let action = update(&mut sale, msg, &mut self.next_item_id);
                    self.sales.insert(sale_id, sale);
                    action
                };
                let ghost mid = *self;
                if let Some(instruction) = action.instruction {
                    self.perform(sale_id, instruction);
                }
                if let Some(effect) = action.effect {
                    effects.push(effect);
                }
                assert(effects@ =~= effect_seq(action.effect));
                proof {
                    if sale_id != old(self).pending_id {
                        assert(mid.sales@ =~= old(self).sales@.insert(sale_id, mid.sales@[sale_id]));
                    }
                }
            },
        }
        effects
    }

    /// Moves the draft into the committed sales under its id and starts a blank
    /// draft under the next id.
    fn commit(&mut self)
        requires
            old(self).wf(),
            old(self).next_sale_id < usize::MAX,
        ensures
            final(self).committed_from(*old(self)),
            final(self).screen == old(self).screen,
    {
        let mut sale = Sale::new();
        std::mem::swap(&mut sale, &mut self.pending_sale);
        let id = self.pending_id;
        self.pending_id = self.next_sale_id;
        self.next_sale_id = self.next_sale_id + 1;
        self.sales.insert(id, sale);
    }

    /// Carries out an instruction that came from the sale with id `sale_id`.
    fn perform(&mut self, sale_id: usize, instruction: Instruction)
        requires
            old(self).wf(),
            instruction == Instruction::Save && sale_id == old(self).pending_id
                ==> old(self).next_sale_id < usize::MAX,
            old(self).has_sale(sale_id),
        ensures
            final(self).wf(),
            final(self).screen == screen_after(old(self).screen, sale_id, Some(instruction)),
            if instruction == Instruction::Save && sale_id == old(self).pending_id {
                final(self).committed_from(*old(self))
            } else {
                final(self).same_store(*old(self))
            },
    {
        match instruction {
            Instruction::Back => match self.screen {
                Screen::List => {},
                Screen::Sale(mode, id) => match mode {
                    Mode::Edit => self.screen = Screen::Sale(Mode::View, id),
                    Mode::View => self.screen = Screen::List,
                },
            },
            Instruction::Save => {
                if sale_id == self.pending_id {
                    self.commit();
                }
                self.screen = Screen::Sale(Mode::View, sale_id);
            },
            Instruction::StartEdit => {
                self.screen = Screen::Sale(Mode::Edit, sale_id);
            },
            Instruction::Cancel => {
                self.screen = Screen::Sale(Mode::View, sale_id);
            },
        }
    }
}

/// A commit never reuses an id: the draft's id was not yet a key of the committed
/// sales, every earlier entry is kept as it was, and the new draft's id is fresh and
/// above the old counter.
pub proof fn commit_keeps_ids_unique(a: App, b: App)
    requires
        a.wf(),
        b.committed_from(a),
    ensures
        !a.sales@.contains_key(a.pending_id),
        b.sales@.contains_key(a.pending_id),
        forall|k: usize| #[trigger] a.sales@.contains_key(k) ==> b.sales@.contains_key(k)
            && b.sales@[k] == a.sales@[k],
        !b.sales@.contains_key(b.pending_id),
        b.pending_id != a.pending_id,
        b.next_sale_id > a.next_sale_id,
        b.pending_id < b.next_sale_id,
        forall|k: usize| #[trigger] b.sales@.contains_key(k) ==> k < b.next_sale_id,
{
}

/// Two commits in a row file their drafts under two different ids, both kept, and
/// the sale counter rises at each.
pub proof fn successive_commits_keep_both(a: App, b: App, c: App)
    requires
        a.wf(),
        b.wf(),
        b.committed_from(a),
        c.committed_from(b),
    ensures
        a.pending_id != b.pending_id,
        c.sales@.contains_key(a.pending_id) && c.sales@[a.pending_id] == a.pending_sale,
        c.sales@.contains_key(b.pending_id) && c.sales@[b.pending_id] == b.pending_sale,
        forall|k: usize| #[trigger] a.sales@.contains_key(k) ==> c.sales@.contains_key(k)
            && c.sales@[k] == a.sales@[k],
        a.next_sale_id < b.next_sale_id < c.next_sale_id,
{
    commit_keeps_ids_unique(a, b);
    commit_keeps_ids_unique(b, c);
}

/// Edits reach only the sale they name: an event on the draft that does not commit
/// it leaves every committed sale as it was, and an event on a committed sale leaves
/// the draft and every other committed sale as they were.
pub proof fn edits_stay_in_their_slot(a: App, b: App, id: usize, m: Message, r: Seq<Effect>)
    requires
        a.wf(),
        a.has_sale(id),
        event_post(a, b, Event::Sale(id, m), r),
    ensures
        id == a.pending_id && message_instruction(m) != Some(Instruction::Save) ==> b.sales@
            == a.sales@,
        id != a.pending_id ==> b.pending_sale == a.pending_sale && b.pending_id == a.pending_id,
        id != a.pending_id ==> forall|k: usize| #[trigger]
            a.sales@.contains_key(k) && k != id ==> b.sales@.contains_key(k) && b.sales@[k]
                == a.sales@[k],
        id != a.pending_id ==> b.sales@.dom() == a.sales@.dom(),
{
    if id != a.pending_id {
        assert(b.sales@.dom() =~= a.sales@.dom());
    }
}

/// Escape always climbs one level: from editing a sale to viewing it, from viewing
/// it to the list; on the list it does nothing.
pub proof fn escape_ascends(screen: Screen, id: usize)
    ensures
        match screen {
            Screen::List => escape_from(screen) == Screen::List,
            Screen::Sale(mode, id) => escape_from(screen) == screen_after(
                screen,
                id,
                hotkey_action(mode, Hotkey::Escape).instruction,
            ),
        },
        escape_from(Screen::List) == Screen::List,
        escape_from(Screen::Sale(Mode::Edit, id)) == Screen::Sale(Mode::View, id),
        escape_from(Screen::Sale(Mode::View, id)) == Screen::List,
{
}

} // verus!
