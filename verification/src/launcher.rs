//! The kiosk's home screen: a menu of games, a quit prompt, and launching
//! the selected game.
use vstd::prelude::*;

verus! {

#[derive(Debug, Clone, Copy, PartialEq, Eq, Structural)]
pub enum GameSelection {
    Charades,
    Pictionary,
}

pub open spec fn game_label(g: GameSelection) -> Seq<char> {
    match g {
        GameSelection::Charades => "Charades"@,
        GameSelection::Pictionary => "Pictionary"@,
    }
}

pub open spec fn game_bin_name(g: GameSelection) -> Seq<char> {
    match g {
        GameSelection::Charades => "charades"@,
        GameSelection::Pictionary => "pictionary"@,
    }
}

impl GameSelection {
    pub fn label(self) -> (r: &'static str)
        ensures
            r@ == game_label(self),
    {
        match self {
            GameSelection::Charades => "Charades",
            GameSelection::Pictionary => "Pictionary",
        }
    }

    /// The name of the game's executable.
    pub fn bin_name(self) -> (r: &'static str)
        ensures
            r@ == game_bin_name(self),
    {
        match self {
            GameSelection::Charades => "charades",
            GameSelection::Pictionary => "pictionary",
        }
    }
}

/// The games of the menu, in menu order.
pub const MENU_ITEMS: [GameSelection; 2] = [GameSelection::Charades, GameSelection::Pictionary];

/// Number of games in the menu.
pub const MENU_LEN: usize = 2;

/// The game at position `i` of the menu.
pub open spec fn menu_item(i: nat) -> GameSelection {
    if i == 0 {
        GameSelection::Charades
    } else {
        GameSelection::Pictionary
    }
}

#[derive(Debug, Clone, Copy, PartialEq, Eq, Structural)]
pub enum AppState {
    GameSelect { selected: usize },
    QuitPrompt { selected: usize },
    LaunchGame { game: GameSelection, selected: usize },
}

/// Platform-agnostic key actions understood by the kiosk.
#[derive(Debug, Clone, Copy, PartialEq, Eq, Structural)]
pub enum AppKey {
    Up,
    Down,
    /// Enter / Space
    Confirm,
    /// Escape / Backspace / Q
    Back,
}

#[derive(Debug, Clone, Copy, PartialEq, Eq, Structural)]
pub enum Action {
    Nothing,
    Quit,
    Launch,
}

impl AppState {
    /// A selection within the menu wherever the menu is shown.
    pub open spec fn wf(self) -> bool {
        match self {
            AppState::GameSelect { selected } => selected < MENU_LEN,
            AppState::QuitPrompt { selected } => selected < MENU_LEN,
            _ => true,
        }
    }

    pub open spec fn menu_up_spec(self) -> AppState {
        match self {
            AppState::GameSelect { selected } => AppState::GameSelect {
                selected: if selected == 0 {
                    (MENU_LEN - 1) as usize
                } else {
                    (selected - 1) as usize
                },
            },
            _ => self,
        }
    }

    pub open spec fn menu_down_spec(self) -> AppState {
        match self {
            AppState::GameSelect { selected } => AppState::GameSelect {
                selected: ((selected + 1) % (MENU_LEN as int)) as usize,
            },
            _ => self,
        }
    }

    pub open spec fn select_game_spec(self) -> AppState {
        match self {
            AppState::GameSelect { selected } => AppState::LaunchGame {
                game: menu_item(selected as nat),
                selected,
            },
            _ => self,
        }
    }

    pub open spec fn open_quit_prompt_spec(self) -> AppState {
        match self {
            AppState::GameSelect { selected } => AppState::QuitPrompt { selected },
            _ => self,
        }
    }

    pub open spec fn close_quit_prompt_spec(self) -> AppState {
        match self {
            AppState::QuitPrompt { selected } => AppState::GameSelect { selected },
            _ => self,
        }
    }

    pub open spec fn selection(self) -> usize {
        match self {
            AppState::GameSelect { selected } => selected,
            AppState::QuitPrompt { selected } => selected,
            AppState::LaunchGame { selected, .. } => selected,
        }
    }

    pub fn initial() -> (s: Self)
        ensures
            s == (AppState::GameSelect { selected: 0 }),
    {
        AppState::GameSelect { selected: 0 }
    }

    /// The previous game, wrapping to the last.
    pub fn menu_up(&mut self)
        ensures
            *final(self) == old(self).menu_up_spec(),
    {
        if let AppState::GameSelect { selected } = self {
            *selected = match selected.checked_sub(1) {
                Some(s) => s,
                None => MENU_ITEMS.len() - 1,
            };
        }
    }

    /// The next game, wrapping to the first.
    pub fn menu_down(&mut self)
        requires
            *old(self) matches AppState::GameSelect { selected } ==> selected < usize::MAX,
        ensures
            *final(self) == old(self).menu_down_spec(),
    {
        if let AppState::GameSelect { selected } = self {
            *selected = (*selected + 1) % MENU_ITEMS.len();
        }
    }

    pub fn select_game(&mut self)
        requires
            *old(self) matches AppState::GameSelect { selected } ==> selected < MENU_LEN,
        ensures
            *final(self) == old(self).select_game_spec(),
    {
        if let AppState::GameSelect { selected } = self {
            let game = if *selected == 0 {
                MENU_ITEMS[0]
            } else {
                MENU_ITEMS[1]
            };
            *self = AppState::LaunchGame { game, selected: *selected };
        }
    }

    pub fn open_quit_prompt(&mut self)
        ensures
            *final(self) == old(self).open_quit_prompt_spec(),
    {
        if let AppState::GameSelect { selected } = self {
            *self = AppState::QuitPrompt { selected: *selected };
        }
    }

    pub fn close_quit_prompt(&mut self)
        ensures
            *final(self) == old(self).close_quit_prompt_spec(),
    {
        if let AppState::QuitPrompt { selected } = self {
            *self = AppState::GameSelect { selected: *selected };
        }
    }

    /// Back to the menu with `selected` chosen, after a game has ended.
    pub fn restore_selection(&mut self, selected: usize)
        ensures
            *final(self) == (AppState::GameSelect { selected }),
    {
        *self = AppState::GameSelect { selected };
    }

    pub fn current_selection(&self) -> (r: usize)
        ensures
            r == self.selection(),
    {
        match self {
            AppState::GameSelect { selected } | AppState::QuitPrompt { selected } => *selected,
            AppState::LaunchGame { selected, .. } => *selected,
        }
    }
}

/// What one key does: the next state, and the action that ends the frame, if any.
pub open spec fn key_step(s: AppState, key: AppKey) -> (AppState, Option<Action>) {
    match s {
        AppState::GameSelect { .. } => match key {
            AppKey::Up => (s.menu_up_spec(), None),
            AppKey::Down => (s.menu_down_spec(), None),
            AppKey::Confirm => (s.select_game_spec(), Some(Action::Launch)),
            AppKey::Back => (s.open_quit_prompt_spec(), None),
        },
        AppState::QuitPrompt { .. } => match key {
            AppKey::Confirm => (s, Some(Action::Quit)),
            AppKey::Back => (s.close_quit_prompt_spec(), None),
            _ => (s, None),
        },
        AppState::LaunchGame { .. } => (s, None),
    }
}

/// The keys taken in order until one launches a game or quits.
pub open spec fn run_keys(s: AppState, keys: Seq<AppKey>) -> (AppState, Option<Action>)
    decreases keys.len(),
{
    if keys.len() == 0 {
        (s, None)
    } else {
        let (s1, a1) = run_keys(s, keys.drop_last());
        if a1 is Some {
            (s1, a1)
        } else {
            key_step(s1, keys.last())
        }
    }
}

/// Every key keeps the menu selection within the menu.
pub proof fn lemma_key_step_keeps_wf(s: AppState, key: AppKey)
    requires
        s.wf(),
    ensures
        key_step(s, key).0.wf(),
{
}

proof fn lemma_run_keys_after_action(s: AppState, keys: Seq<AppKey>, k: int)
    requires
        0 <= k <= keys.len(),
        run_keys(s, keys.take(k)).1 is Some,
    ensures
        run_keys(s, keys) == run_keys(s, keys.take(k)),
    decreases keys.len() - k,
{
    if k < keys.len() {
        assert(keys.take(k + 1).drop_last() =~= keys.take(k));
        lemma_run_keys_after_action(s, keys, k + 1);
    } else {
        assert(keys.take(k) =~= keys);
    }
}

/// What a key needs of the state it is pressed in: confirming on the menu
/// reads the game at the selection, and moving down counts one past it.
pub open spec fn key_ok(s: AppState, key: AppKey) -> bool {
    match s {
        AppState::GameSelect { selected } => match key {
            AppKey::Confirm => selected < MENU_LEN,
            AppKey::Down => selected < usize::MAX,
            _ => true,
        },
        _ => true,
    }
}

/// Every key of the run, up to the one that ends it, meets `key_ok` in the
/// state it is pressed in.
pub open spec fn keys_ok(s: AppState, keys: Seq<AppKey>) -> bool {
    forall|k: int|
        0 <= k < keys.len() && #[trigger] run_keys(s, keys.take(k)).1 is None ==> key_ok(
            run_keys(s, keys.take(k)).0,
            keys[k],
        )
}

proof fn lemma_run_keys_keeps_wf(s: AppState, keys: Seq<AppKey>)
    requires
        s.wf(),
    ensures
        run_keys(s, keys).0.wf(),
    decreases keys.len(),
{
    if keys.len() > 0 {
        lemma_run_keys_keeps_wf(s, keys.drop_last());
    }
}

/// From a state whose menu selection is within the menu, every run of keys
/// can be taken.
pub proof fn lemma_wf_takes_any_keys(s: AppState, keys: Seq<AppKey>)
    requires
        s.wf(),
    ensures
        keys_ok(s, keys),
{
    assert forall|k: int|
        0 <= k < keys.len() && #[trigger] run_keys(s, keys.take(k)).1 is None implies key_ok(
        run_keys(s, keys.take(k)).0,
        keys[k],
    ) by {
        lemma_run_keys_keeps_wf(s, keys.take(k));
    }
}

/// Takes the keys of one frame in order, until one launches a game or quits.
pub fn handle_keys(keys: &[AppKey], state: &mut AppState) -> (r: Action)
    requires
        keys_ok(*old(state), keys@),
    ensures
        run_keys(*old(state), keys@) == (
            *final(state),
            if r == Action::Nothing {
                None
            } else {
                Some(r)
            },
        ),
        old(state).wf() ==> final(state).wf(),
{
    let ghost s0 = *state;
    let mut i: usize = 0;
    assert(keys@.take(0) =~= Seq::<AppKey>::empty());
    while i < keys.len()
        invariant
            i <= keys@.len(),
            s0 == *old(state),
            keys_ok(s0, keys@),
            s0.wf() ==> state.wf(),
            run_keys(s0, keys@.take(i as int)) == (*state, None::<Action>),
        decreases keys@.len() - i,
    {
        let key = keys[i];
        let ghost before = *state;
        proof {
            assert(keys@.take(i + 1).drop_last() =~= keys@.take(i as int));
            assert(keys@.take(i + 1).last() == key);
            assert(run_keys(s0, keys@.take(i as int)).1 is None);
            assert(key_ok(before, key));
            if before.wf() {
                lemma_key_step_keeps_wf(before, key);
            }
        }
        let mut action = Action::Nothing;
        match state {
            AppState::GameSelect { .. } => match key {
                AppKey::Up => state.menu_up(),
                AppKey::Down => state.menu_down(),
                AppKey::Confirm => {
                    state.select_game();
                    action = Action::Launch;
                },
                AppKey::Back => state.open_quit_prompt(),
            },
            AppState::QuitPrompt { .. } => match key {
                AppKey::Confirm => {
                    action = Action::Quit;
                },
                AppKey::Back => state.close_quit_prompt(),
                _ => {},
            },
            AppState::LaunchGame { .. } => {},
        }
        if action != Action::Nothing {
            proof {
                assert(run_keys(s0, keys@.take(i + 1)) == (*state, Some(action)));
                lemma_run_keys_after_action(s0, keys@, i + 1);
            }
            return action;
        }
        i = i + 1;
    }
    assert(keys@.take(keys@.len() as int) =~= keys@);
    Action::Nothing
}


/// Up then down (and down then up) on the game menu comes back to the same game.
pub proof fn lemma_menu_moves_inverse(s: AppState)
    requires
        s.wf(),
    ensures
        s.menu_up_spec().menu_down_spec() == s,
        s.menu_down_spec().menu_up_spec() == s,
{
}

/// Opening the quit prompt and backing out of it returns to the same
/// selection.
pub proof fn lemma_quit_prompt_round_trip(s: AppState)
    requires
        s is GameSelect,
    ensures
        s.open_quit_prompt_spec().close_quit_prompt_spec() == s,
{
}

/// Launching a game starts the game at the menu position and remembers the
/// position, which restoring brings back.
pub proof fn lemma_launch_remembers_selection(s: AppState)
    requires
        s.wf(),
        s is GameSelect,
    ensures
        s.select_game_spec() == (AppState::LaunchGame {
            game: menu_item(s.selection() as nat),
            selected: s.selection(),
        }),
        s.select_game_spec().selection() == s.selection(),
{
}

/// Selecting a game launches the game that the menu shows at the selected
/// position (the first entry is Charades, the second Pictionary), and keeps
/// that position.
pub proof fn lemma_select_launches_shown_game(selected: usize)
    requires
        selected < MENU_LEN,
    ensures
        (AppState::GameSelect { selected }).select_game_spec() == (AppState::LaunchGame {
            game: MENU_ITEMS[selected as int],
            selected,
        }),
        MENU_ITEMS[0] == GameSelection::Charades,
        MENU_ITEMS[1] == GameSelection::Pictionary,
{
}

} // verus!
