//! Pictionary: a start menu and a run of prompts dealt from one word list.
use vstd::prelude::*;
use crate::charades::{dealt, WordQueue};
use crate::launcher::AppKey;

verus! {

#[derive(Debug, Clone, Copy, PartialEq, Eq, Structural)]
pub enum MenuSelection {
    Start,
}

impl MenuSelection {
    pub fn label(self) -> (r: &'static str)
        ensures
            r@ == "Start"@,
    {
        "Start"
    }
}

/// The entries of the menu, in menu order.
pub const MENU_ITEMS: [MenuSelection; 1] = [MenuSelection::Start];

/// Number of entries in the menu.
pub const MENU_LEN: usize = 1;

pub enum AppState {
    Menu { selected: usize },
    Playing { current_prompt: String, queue: WordQueue },
}

impl AppState {
    /// A selection within the menu, and a prompt pool that is not empty.
    pub open spec fn wf(&self) -> bool {
        match *self {
            AppState::Menu { selected } => selected < MENU_LEN,
            AppState::Playing { queue, .. } => queue.wf(),
        }
    }

    pub fn initial() -> (s: Self)
        ensures
            s == (AppState::Menu { selected: 0 }),
    {
        AppState::Menu { selected: 0 }
    }

    /// The menu with the selection one up, wrapping to the last entry.
    pub open spec fn menu_up_spec(self) -> AppState {
        match self {
            AppState::Menu { selected } => AppState::Menu {
                selected: if selected == 0 {
                    (MENU_LEN - 1) as usize
                } else {
                    (selected - 1) as usize
                },
            },
            _ => self,
        }
    }

    /// The menu with the selection one down, wrapping to the first entry.
    pub open spec fn menu_down_spec(self) -> AppState {
        match self {
            AppState::Menu { selected } => AppState::Menu {
                selected: ((selected + 1) % (MENU_LEN as int)) as usize,
            },
            _ => self,
        }
    }

    /// Moves the selection up, wrapping to the last entry.
    pub fn menu_up(&mut self)
        ensures
            *final(self) == old(self).menu_up_spec(),
    {
        if let AppState::Menu { selected } = self {
            *selected = match selected.checked_sub(1) {
                Some(s) => s,
                None => MENU_ITEMS.len() - 1,
            };
        }
    }

    /// Moves the selection down, wrapping to the first entry.
    pub fn menu_down(&mut self)
        requires
            *old(self) matches AppState::Menu { selected } ==> selected < usize::MAX,
        ensures
            *final(self) == old(self).menu_down_spec(),
    {
        if let AppState::Menu { selected } = self {
            *selected = (*selected + 1) % MENU_ITEMS.len();
        }
    }

    /// Starts a run with the prompts of `queue`, showing its first one.
    pub fn start_game(&mut self, queue: WordQueue)
        requires
            old(self).wf(),
            queue.wf(),
        ensures
            final(self).wf(),
            match *old(self) {
                AppState::Menu { .. } => match *final(self) {
                    AppState::Playing { current_prompt, queue: q } => dealt(
                        queue,
                        q,
                        current_prompt,
                    ),
                    _ => false,
                },
                AppState::Playing { .. } => *final(self) == *old(self),
            },
    {
        if let AppState::Menu { selected } = self {
            let _item = MENU_ITEMS[*selected];
            let mut queue = queue;
            let first = queue.next();
            *self = AppState::Playing { current_prompt: first, queue };
        }
    }

    /// Shows the next prompt of the run.
    pub fn next_prompt(&mut self)
        requires
            old(self).wf(),
        ensures
            final(self).wf(),
            match *old(self) {
                AppState::Playing { queue: q0, .. } => match *final(self) {
                    AppState::Playing { current_prompt, queue: q1 } => dealt(
                        q0,
                        q1,
                        current_prompt,
                    ),
                    _ => false,
                },
                AppState::Menu { .. } => *final(self) == *old(self),
            },
    {
        if let AppState::Playing { current_prompt, queue } = self {
            *current_prompt = queue.next();
        }
    }

    /// Back to the menu, with its first entry selected.
    pub fn back_to_menu(&mut self)
        ensures
            *final(self) == (AppState::Menu { selected: 0 }),
    {
        *self = AppState::Menu { selected: 0 };
    }
}

pub open spec fn x11_key(code: u8) -> Option<AppKey> {
    if code == 9 || code == 22 || code == 24 {
        Some(AppKey::Back)
    } else if code == 25 || code == 111 {
        Some(AppKey::Up)
    } else if code == 36 || code == 65 || code == 104 {
        Some(AppKey::Confirm)
    } else if code == 39 || code == 116 {
        Some(AppKey::Down)
    } else {
        None
    }
}

/// The key of an X11 hardware key code (the evdev code plus 8): Escape,
/// BackSpace and Q go back; W and Up go up; Return, Space and KP_Enter
/// confirm; S and Down go down.
pub fn x11_keycode_to_appkey(code: u8) -> (r: Option<AppKey>)
    ensures
        r == x11_key(code),
{
    match code {
        9 => Some(AppKey::Back),
        22 => Some(AppKey::Back),
        24 => Some(AppKey::Back),
        25 => Some(AppKey::Up),
        36 => Some(AppKey::Confirm),
        39 => Some(AppKey::Down),
        65 => Some(AppKey::Confirm),
        104 => Some(AppKey::Confirm),
        111 => Some(AppKey::Up),
        116 => Some(AppKey::Down),
        _ => None,
    }
}

/// What a key asks of the caller: nothing more, to quit, to start a run with
/// the word list, or to show the next prompt.
#[derive(Debug, Clone, Copy, PartialEq, Eq, Structural)]
pub enum PromptAction {
    Nothing,
    Quit,
    Start,
    NextPrompt,
}

/// What one key does: the next state, and the request it makes of the caller,
/// if any. Starting a run and dealing a prompt need the word list or a
/// shuffle, so those keys leave the state as it is and ask for them.
pub open spec fn key_step(s: AppState, key: AppKey) -> (AppState, Option<PromptAction>) {
    match s {
        AppState::Menu { .. } => match key {
            AppKey::Up => (s.menu_up_spec(), None),
            AppKey::Down => (s.menu_down_spec(), None),
            AppKey::Confirm => (s, Some(PromptAction::Start)),
            AppKey::Back => (s, Some(PromptAction::Quit)),
        },
        AppState::Playing { .. } => match key {
            AppKey::Confirm => (s, Some(PromptAction::NextPrompt)),
            AppKey::Back => (AppState::Menu { selected: 0 }, None),
            _ => (s, None),
        },
    }
}

/// The keys taken in order until one makes a request.
pub open spec fn run_keys(s: AppState, keys: Seq<AppKey>) -> (AppState, Option<PromptAction>)
    decreases keys.len(),
{
    if keys.len() == 0 {
        (s, None)
    } else {
        let (s1, a1) = run_keys(s, keys.drop_last());
        if a1 is Some {
            (s1, a1)
        } else {
            key_step(s1, keys.last())
        }
    }
}

/// Every key keeps the state well formed.
pub proof fn lemma_key_step_keeps_wf(s: AppState, key: AppKey)
    requires
        s.wf(),
    ensures
        key_step(s, key).0.wf(),
{
}

/// What a key needs of the state it is pressed in: moving down on the menu
/// counts one past the selection.
pub open spec fn key_ok(s: AppState, key: AppKey) -> bool {
    match s {
        AppState::Menu { selected } => match key {
            AppKey::Down => selected < usize::MAX,
            _ => true,
        },
        _ => true,
    }
}

/// Every key of the run, up to the one that makes a request, meets `key_ok` in
/// the state it is pressed in.
pub open spec fn keys_ok(s: AppState, keys: Seq<AppKey>) -> bool {
    forall|k: int|
        0 <= k < keys.len() && #[trigger] run_keys(s, keys.take(k)).1 is None ==> key_ok(
            run_keys(s, keys.take(k)).0,
            keys[k],
        )
}

proof fn lemma_run_keys_keeps_wf(s: AppState, keys: Seq<AppKey>)
    requires
        s.wf(),
    ensures
        run_keys(s, keys).0.wf(),
    decreases keys.len(),
{
    if keys.len() > 0 {
        lemma_run_keys_keeps_wf(s, keys.drop_last());
    }
}

/// From a well-formed state, every run of keys can be taken.
pub proof fn lemma_wf_takes_any_keys(s: AppState, keys: Seq<AppKey>)
    requires
        s.wf(),
    ensures
        keys_ok(s, keys),
{
    assert forall|k: int|
        0 <= k < keys.len() && #[trigger] run_keys(s, keys.take(k)).1 is None implies key_ok(
        run_keys(s, keys.take(k)).0,
        keys[k],
    ) by {
        lemma_run_keys_keeps_wf(s, keys.take(k));
    }
}

/// Takes keys in order until one makes a request (to quit, to start a run,
/// to deal the next prompt). Returns that request, or `Nothing` when every key
/// was taken, and the number of keys taken.
pub fn handle_keys(keys: &[AppKey], state: &mut AppState) -> (r: (PromptAction, usize))
    requires
        keys_ok(*old(state), keys@),
    ensures
        old(state).wf() ==> final(state).wf(),
        r.1 <= keys@.len(),
        r.0 == PromptAction::Nothing ==> r.1 == keys@.len(),
        run_keys(*old(state), keys@.take(r.1 as int)) == (
            *final(state),
            if r.0 == PromptAction::Nothing {
                None
            } else {
                Some(r.0)
            },
        ),
{
    let ghost s0 = *state;
    let mut i: usize = 0;
    assert(keys@.take(0) =~= Seq::<AppKey>::empty());
    while i < keys.len()
        invariant
            i <= keys@.len(),
            s0 == *old(state),
            keys_ok(s0, keys@),
            s0.wf() ==> state.wf(),
            run_keys(s0, keys@.take(i as int)) == (*state, None::<PromptAction>),
        decreases keys@.len() - i,
    {
        let key = keys[i];
        proof {
            assert(keys@.take(i + 1).drop_last() =~= keys@.take(i as int));
            assert(keys@.take(i + 1).last() == key);
            assert(run_keys(s0, keys@.take(i as int)).1 is None);
            assert(key_ok(*state, key));
            if state.wf() {
                lemma_key_step_keeps_wf(*state, key);
            }
        }
        i = i + 1;
        match key {
            AppKey::Up => state.menu_up(),
            AppKey::Down => state.menu_down(),
            AppKey::Confirm => {
                if let AppState::Menu { .. } = state {
                    return (PromptAction::Start, i);
                }
                return (PromptAction::NextPrompt, i);
            },
            AppKey::Back => {
                if let AppState::Menu { .. } = state {
                    return (PromptAction::Quit, i);
                }
                state.back_to_menu();
            },
        }
    }
    (PromptAction::Nothing, i)
}

} // verus!
