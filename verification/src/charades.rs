//! The prompt games: word lists by difficulty, the shuffled queue that deals
//! prompts and reshuffles when it runs out, and the keyboard codes.
use vstd::prelude::*;
use std::collections::VecDeque;
use crate::launcher::AppKey;
use crate::random::shuffle;
use crate::text::{nonblank_lines, nonblank_lines_of, views};

verus! {

#[derive(Debug, Clone, Copy, PartialEq, Eq, Structural)]
pub enum Difficulty {
    Easy,
    Medium,
    Hard,
}

/// The prompts of a word-list text: its lines, trimmed, blank ones left out.
pub fn parse_prompts(raw: &str) -> (r: Vec<String>)
    ensures
        views(r@) == nonblank_lines(raw@),
{
    nonblank_lines_of(raw)
}

pub open spec fn difficulty_filename_spec(d: Difficulty) -> Seq<char> {
    match d {
        Difficulty::Easy => "easy.txt"@,
        Difficulty::Medium => "medium.txt"@,
        Difficulty::Hard => "hard.txt"@,
    }
}

/// The asset file of the difficulty's word list.
pub fn difficulty_filename(difficulty: Difficulty) -> (r: &'static str)
    ensures
        r@ == difficulty_filename_spec(difficulty),
{
    match difficulty {
        Difficulty::Easy => "easy.txt",
        Difficulty::Medium => "medium.txt",
        Difficulty::Hard => "hard.txt",
    }
}

/// The full pool of prompts and the shuffled queue that deals them.
pub struct WordQueue {
    pool: Vec<String>,
    queue: VecDeque<String>,
}

fn copy_to_queue(pool: &Vec<String>) -> (q: VecDeque<String>)
    ensures
        q@ == pool@,
{
    let mut q: VecDeque<String> = VecDeque::new();
    let mut i: usize = 0;
    while i < pool.len()
        invariant
            i <= pool@.len(),
            q@ == pool@.take(i as int),
        decreases pool@.len() - i,
    {
        q.push_back(pool[i].clone());
        assert(q@ =~= pool@.take(i + 1));
        i = i + 1;
    }
    assert(q@ =~= pool@);
    q
}

impl WordQueue {
    /// The prompts of the list, in their current shuffled order.
    pub closed spec fn pool(&self) -> Seq<String> {
        self.pool@
    }

    /// The prompts still to be dealt before the next reshuffle.
    pub closed spec fn queue(&self) -> Seq<String> {
        self.queue@
    }

    /// The pool is never empty, and the queue is what remains of the pool's
    /// current order: each prompt is dealt once per shuffle.
    pub open spec fn wf(&self) -> bool {
        &&& self.pool().len() > 0
        &&& self.queue().len() <= self.pool().len()
        &&& self.queue() == self.pool().skip(self.pool().len() - self.queue().len())
    }

    /// A queue over the prompts of `pool`, shuffled.
    pub fn new(pool: Vec<String>) -> (q: Self)
        requires
            pool@.len() > 0,
        ensures
            q.wf(),
            q.pool().to_multiset() == pool@.to_multiset(),
            q.queue() == q.pool(),
    {
        let mut pool = pool;
        let ghost before = pool@;
        shuffle(&mut pool);
        proof {
            broadcast use vstd::seq_lib::group_to_multiset_ensures;

            assert(pool@.to_multiset().len() == before.to_multiset().len());
        }
        let queue = copy_to_queue(&pool);
        assert(pool@.skip(0) =~= pool@);
        WordQueue { pool, queue }
    }

    /// The next prompt; where the queue has run out, the pool is reshuffled
    /// and dealt again.
    pub fn next(&mut self) -> (r: String)
        requires
            old(self).wf(),
        ensures
            dealt(*old(self), *final(self), r),
    {
        match self.queue.pop_front() {
            Some(x) => {
                assert(self.queue@ =~= old(self).queue@.drop_first());
                assert(self.queue@ =~= self.pool@.skip(self.pool@.len() - self.queue@.len()));
                x
            },
            None => {
                let ghost before = self.pool@;
                shuffle(&mut self.pool);
                proof {
                    broadcast use vstd::seq_lib::group_to_multiset_ensures;

                    assert(self.pool@.to_multiset().len() == before.to_multiset().len());
                }
                self.queue = copy_to_queue(&self.pool);
                match self.queue.pop_front() {
                    Some(x) => {
                        assert(self.queue@ =~= self.pool@.drop_first());
                        assert(self.queue@ =~= self.pool@.skip(
                            self.pool@.len() - self.queue@.len(),
                        ));
                        x
                    },
                    None => {
                        proof {
                            assert(false);
                        }
                        String::new()
                    },
                }
            },
        }
    }
}


/// What dealing a prompt does, from `before` to `after`: the next prompt of
/// the queue; or, where the queue has run out, the first prompt of a
/// reshuffled pool.
pub open spec fn dealt(before: WordQueue, after: WordQueue, r: String) -> bool {
    &&& after.wf()
    &&& before.queue().len() > 0 ==> {
        &&& r == before.queue()[0]
        &&& after.queue() == before.queue().drop_first()
        &&& after.pool() == before.pool()
    }
    &&& before.queue().len() == 0 ==> {
        &&& after.pool().to_multiset() == before.pool().to_multiset()
        &&& r == after.pool()[0]
        &&& after.queue() == after.pool().drop_first()
    }
}

/// Every dealt prompt is a prompt of the list: the list is only ever
/// reordered, and the prompt is the next one of its current order.
pub proof fn lemma_dealt_from_pool(before: WordQueue, after: WordQueue, r: String)
    requires
        before.wf(),
        dealt(before, after, r),
    ensures
        after.pool().to_multiset() == before.pool().to_multiset(),
        after.pool().len() > after.queue().len(),
        r == after.pool()[after.pool().len() - after.queue().len() - 1],
        after.pool().contains(r),
{
    if before.queue().len() > 0 {
        let k: int = before.pool().len() - before.queue().len();
        assert(before.queue()[0] == before.pool()[k]);
        assert(after.pool().len() - after.queue().len() - 1 == k);
    } else {
        broadcast use vstd::seq_lib::group_to_multiset_ensures;

        assert(after.pool().to_multiset().len() == before.pool().to_multiset().len());
    }
}

proof fn lemma_deals_prefix(qs: Seq<WordQueue>, rs: Seq<String>, k: int)
    requires
        qs.len() == rs.len() + 1,
        qs[0].wf(),
        qs[0].queue() == qs[0].pool(),
        rs.len() <= qs[0].pool().len(),
        forall|i: int| #![trigger rs[i]] 0 <= i < rs.len() ==> dealt(qs[i], qs[i + 1], rs[i]),
        0 <= k <= rs.len(),
    ensures
        qs[k].pool() == qs[0].pool(),
        qs[k].queue() == qs[0].pool().skip(k),
        rs.take(k) == qs[0].pool().take(k),
    decreases k,
{
    if k == 0 {
        assert(qs[0].pool().skip(0) =~= qs[0].pool());
        assert(rs.take(0) =~= qs[0].pool().take(0));
    } else {
        lemma_deals_prefix(qs, rs, k - 1);
        let p = qs[0].pool();
        assert(dealt(qs[k - 1], qs[k], rs[k - 1]));
        assert(qs[k - 1].queue().len() == p.len() - (k - 1));
        assert(qs[k - 1].queue()[0] == p[k - 1]);
        assert(qs[k].queue() =~= p.skip(k));
        assert(rs.take(k) =~= rs.take(k - 1).push(rs[k - 1]));
        assert(p.take(k) =~= p.take(k - 1).push(p[k - 1]));
    }
}

/// From a freshly shuffled queue, dealing as many prompts as the list holds
/// deals each prompt exactly once, in the shuffled order, and leaves the
/// queue empty for the next reshuffle.
pub proof fn lemma_round_deals_each_prompt_once(qs: Seq<WordQueue>, rs: Seq<String>)
    requires
        qs.len() == rs.len() + 1,
        qs[0].wf(),
        qs[0].queue() == qs[0].pool(),
        rs.len() == qs[0].pool().len(),
        forall|i: int| #![trigger rs[i]] 0 <= i < rs.len() ==> dealt(qs[i], qs[i + 1], rs[i]),
    ensures
        rs == qs[0].pool(),
        rs.to_multiset() == qs[0].pool().to_multiset(),
        qs[rs.len() as int].queue().len() == 0,
{
    lemma_deals_prefix(qs, rs, rs.len() as int);
    assert(rs.take(rs.len() as int) =~= rs);
    assert(qs[0].pool().take(rs.len() as int) =~= qs[0].pool());
}

proof fn lemma_deals_run(qs: Seq<WordQueue>, rs: Seq<String>, s: int, j: int, k: int)
    requires
        qs.len() == rs.len() + 1,
        forall|i: int| #![trigger rs[i]] 0 <= i < rs.len() ==> dealt(qs[i], qs[i + 1], rs[i]),
        0 <= s,
        0 <= k,
        s + k <= rs.len(),
        0 <= j,
        j + k <= qs[s].pool().len(),
        qs[s].wf(),
        qs[s].queue() == qs[s].pool().skip(j),
    ensures
        qs[s + k].wf(),
        qs[s + k].pool() == qs[s].pool(),
        qs[s + k].queue() == qs[s].pool().skip(j + k),
        rs.subrange(s, s + k) == qs[s].pool().subrange(j, j + k),
    decreases k,
{
    let p = qs[s].pool();
    if k == 0 {
        assert(rs.subrange(s, s) =~= p.subrange(j, j));
    } else {
        lemma_deals_run(qs, rs, s, j, k - 1);
        let t = s + k - 1;
        assert(dealt(qs[t], qs[t + 1], rs[t]));
        assert(qs[t].queue().len() == p.len() - (j + k - 1));
        assert(qs[t].queue()[0] == p[j + k - 1]);
        assert(qs[t + 1].queue() =~= p.skip(j + k));
        assert(rs.subrange(s, s + k) =~= rs.subrange(s, s + k - 1).push(rs[t]));
        assert(p.subrange(j, j + k) =~= p.subrange(j, j + k - 1).push(p[j + k - 1]));
    }
}

proof fn lemma_cycle(qs: Seq<WordQueue>, rs: Seq<String>, s: int)
    requires
        qs.len() == rs.len() + 1,
        forall|i: int| #![trigger rs[i]] 0 <= i < rs.len() ==> dealt(qs[i], qs[i + 1], rs[i]),
        0 <= s,
        qs[s].wf(),
        s + qs[s].pool().len() <= rs.len(),
        qs[s].queue() == qs[s].pool() || qs[s].queue().len() == 0,
    ensures
        rs.subrange(s, s + qs[s].pool().len()).to_multiset() == qs[s].pool().to_multiset(),
        qs[s + qs[s].pool().len()].wf(),
        qs[s + qs[s].pool().len()].queue().len() == 0,
        qs[s + qs[s].pool().len()].pool().to_multiset() == qs[s].pool().to_multiset(),
        qs[s + qs[s].pool().len()].pool().len() == qs[s].pool().len(),
{
    let p = qs[s].pool();
    let n = p.len() as int;
    if qs[s].queue() == p {
        assert(p.skip(0) =~= p);
        lemma_deals_run(qs, rs, s, 0, n);
        assert(p.subrange(0, n) =~= p);
    } else {
        broadcast use vstd::seq_lib::group_to_multiset_ensures;

        assert(dealt(qs[s], qs[s + 1], rs[s]));
        let p1 = qs[s + 1].pool();
        assert(p1.to_multiset().len() == p.to_multiset().len());
        assert(p1.len() == n);
        assert(qs[s + 1].queue() =~= p1.skip(1));
        lemma_deals_run(qs, rs, s + 1, 1, n - 1);
        assert(rs.subrange(s, s + n) =~= seq![rs[s]] + rs.subrange(s + 1, s + n));
        assert(p1 =~= seq![p1[0]] + p1.subrange(1, n));
        assert(rs.subrange(s, s + n) =~= p1);
    }
}

proof fn lemma_round_start(qs: Seq<WordQueue>, rs: Seq<String>, k: int)
    requires
        qs.len() == rs.len() + 1,
        forall|i: int| #![trigger rs[i]] 0 <= i < rs.len() ==> dealt(qs[i], qs[i + 1], rs[i]),
        qs[0].wf(),
        qs[0].queue() == qs[0].pool(),
        0 <= k,
        k * qs[0].pool().len() <= rs.len(),
    ensures
        qs[k * qs[0].pool().len()].wf(),
        qs[k * qs[0].pool().len()].pool().to_multiset() == qs[0].pool().to_multiset(),
        qs[k * qs[0].pool().len()].pool().len() == qs[0].pool().len(),
        k == 0 ==> qs[k * qs[0].pool().len()] == qs[0],
        k > 0 ==> qs[k * qs[0].pool().len()].queue().len() == 0,
    decreases k,
{
    let n = qs[0].pool().len() as int;
    if k == 0 {
        assert(k * n == 0) by (nonlinear_arith)
            requires
                k == 0,
        ;
    } else {
        assert((k - 1) * n + n == k * n) by (nonlinear_arith);
        assert((k - 1) * n <= k * n) by (nonlinear_arith)
            requires
                n >= 0,
                k >= 1,
        ;
        lemma_round_start(qs, rs, k - 1);
        assert((k - 1) * n >= 0) by (nonlinear_arith)
            requires
                n >= 0,
                k >= 1,
        ;
        lemma_cycle(qs, rs, (k - 1) * n);
    }
}

/// The prompts are reshuffled indefinitely: from a freshly shuffled queue,
/// every run of as many deals as the list holds (the first one, and each
/// that begins with a reshuffle) deals each prompt of the list exactly once.
pub proof fn lemma_every_round_deals_each_prompt_once(qs: Seq<WordQueue>, rs: Seq<String>, k: int)
    requires
        qs.len() == rs.len() + 1,
        qs[0].wf(),
        qs[0].queue() == qs[0].pool(),
        forall|i: int| #![trigger rs[i]] 0 <= i < rs.len() ==> dealt(qs[i], qs[i + 1], rs[i]),
        0 <= k,
        (k + 1) * qs[0].pool().len() <= rs.len(),
    ensures
        rs.subrange(k * qs[0].pool().len(), (k + 1) * qs[0].pool().len()).to_multiset()
            == qs[0].pool().to_multiset(),
{
    let n = qs[0].pool().len() as int;
    assert(k * n + n == (k + 1) * n) by (nonlinear_arith);
    assert(k * n >= 0) by (nonlinear_arith)
        requires
            n >= 0,
            k >= 0,
    ;
    lemma_round_start(qs, rs, k);
    lemma_cycle(qs, rs, k * n);
}

/// The queue over the prompts of a word-list text; `None` where the text
/// holds no prompt.
pub fn load_queue(raw: &str) -> (r: Option<WordQueue>)
    ensures
        r is None <==> nonblank_lines(raw@).len() == 0,
        r matches Some(q) ==> q.wf() && exists|p: Seq<String>|
            views(p) == nonblank_lines(raw@) && #[trigger] p.to_multiset()
                == q.pool().to_multiset() && q.queue() == q.pool(),
{
    let pool = parse_prompts(raw);
    assert(views(pool@).len() == pool@.len());
    if pool.len() == 0 {
        return None;
    }
    let ghost p = pool@;
    let q = WordQueue::new(pool);
    assert(views(p) == nonblank_lines(raw@) && p.to_multiset() == q.pool().to_multiset()
        && q.queue() == q.pool());
    let r = Some(q);
    assert(match r {
        Some(q) => exists|p2: Seq<String>|
            views(p2) == nonblank_lines(raw@) && #[trigger] p2.to_multiset()
                == q.pool().to_multiset() && q.queue() == q.pool(),
        None => false,
    });
    r
}

/// The evdev key codes the games read (from `linux/input-event-codes.h`).
pub const K_ESC: u16 = 1;

pub const K_BACKSPACE: u16 = 14;

pub const K_Q: u16 = 16;

pub const K_W: u16 = 17;

pub const K_S: u16 = 31;

pub const K_ENTER: u16 = 28;

pub const K_SPACE: u16 = 57;

pub const K_UP: u16 = 103;

pub const K_DOWN: u16 = 108;

pub const K_KPENTER: u16 = 96;

/// The event type of key events.
pub const EV_KEY: u16 = 1;

pub open spec fn evdev_key(code: u16) -> Option<AppKey> {
    if code == K_UP || code == K_W {
        Some(AppKey::Up)
    } else if code == K_DOWN || code == K_S {
        Some(AppKey::Down)
    } else if code == K_ENTER || code == K_KPENTER || code == K_SPACE {
        Some(AppKey::Confirm)
    } else if code == K_ESC || code == K_Q || code == K_BACKSPACE {
        Some(AppKey::Back)
    } else {
        None
    }
}

/// The key of an evdev key code, for the keys the games use.
pub fn map_key(code: u16) -> (r: Option<AppKey>)
    ensures
        r == evdev_key(code),
{
    if code == K_UP || code == K_W {
        Some(AppKey::Up)
    } else if code == K_DOWN || code == K_S {
        Some(AppKey::Down)
    } else if code == K_ENTER || code == K_KPENTER || code == K_SPACE {
        Some(AppKey::Confirm)
    } else if code == K_ESC || code == K_Q || code == K_BACKSPACE {
        Some(AppKey::Back)
    } else {
        None
    }
}

/// Bit `n` of a little-endian bit set stored in bytes.
pub open spec fn bit_set(bits: Seq<u8>, n: nat) -> bool {
    n / 8 < bits.len() && (bits[(n / 8) as int] >> ((n % 8) as u8)) & 1u8 != 0
}

/// Whether bit `n` is set; bits past the end are clear.
pub fn bit_is_set(bits: &[u8], n: usize) -> (b: bool)
    ensures
        b == bit_set(bits@, n as nat),
{
    let byte: usize = n / 8;
    if byte < bits.len() {
        let shift: u8 = (n % 8) as u8;
        (bits[byte] >> shift) & 1u8 != 0
    } else {
        false
    }
}

/// The key that an input event presses: a key event going down (value 1)
/// with a code the games use.
pub fn key_of_event(ev_type: u16, code: u16, value: i32) -> (r: Option<AppKey>)
    ensures
        r == (if ev_type == EV_KEY && value == 1 {
            evdev_key(code)
        } else {
            None
        }),
{
    if ev_type == EV_KEY && value == 1 {
        map_key(code)
    } else {
        None
    }
}


pub open spec fn difficulty_label(d: Difficulty) -> Seq<char> {
    match d {
        Difficulty::Easy => "Easy"@,
        Difficulty::Medium => "Medium"@,
        Difficulty::Hard => "Hard"@,
    }
}

impl Difficulty {
    pub fn label(self) -> (r: &'static str)
        ensures
            r@ == difficulty_label(self),
    {
        match self {
            Difficulty::Easy => "Easy",
            Difficulty::Medium => "Medium",
            Difficulty::Hard => "Hard",
        }
    }
}

/// The difficulties of the menu, in menu order.
pub const MENU_ITEMS: [Difficulty; 3] = [Difficulty::Easy, Difficulty::Medium, Difficulty::Hard];

/// Number of entries in the menu.
pub const MENU_LEN: usize = 3;

pub open spec fn menu_difficulty(i: nat) -> Difficulty {
    if i == 0 {
        Difficulty::Easy
    } else if i == 1 {
        Difficulty::Medium
    } else {
        Difficulty::Hard
    }
}

/// The screens of charades: the difficulty menu and a run of prompts.
pub enum AppState {
    Menu { selected: usize },
    Playing { current_prompt: String, difficulty: Difficulty, queue: WordQueue },
}

/// What a key asks of the caller: nothing more, to quit, to start a run with
/// the prompts of a difficulty, or to show the next prompt.
#[derive(Debug, Clone, Copy, PartialEq, Eq, Structural)]
pub enum PromptAction {
    Nothing,
    Quit,
    Start(Difficulty),
    NextPrompt,
}

impl AppState {
    /// A selection within the menu, and a prompt pool that is not empty.
    pub open spec fn wf(&self) -> bool {
        match *self {
            AppState::Menu { selected } => selected < MENU_LEN,
            AppState::Playing { queue, .. } => queue.wf(),
        }
    }

    /// The menu with the selection one up, wrapping to the last difficulty.
    pub open spec fn menu_up_spec(self) -> AppState {
        match self {
            AppState::Menu { selected } => AppState::Menu {
                selected: if selected == 0 {
                    (MENU_LEN - 1) as usize
                } else {
                    (selected - 1) as usize
                },
            },
            _ => self,
        }
    }

    /// The menu with the selection one down, wrapping to the first difficulty.
    pub open spec fn menu_down_spec(self) -> AppState {
        match self {
            AppState::Menu { selected } => AppState::Menu {
                selected: ((selected + 1) % (MENU_LEN as int)) as usize,
            },
            _ => self,
        }
    }

    pub fn initial() -> (s: Self)
        ensures
            s == (AppState::Menu { selected: 0 }),
    {
        AppState::Menu { selected: 0 }
    }

    /// Moves the selection up, wrapping to the last difficulty.
    pub fn menu_up(&mut self)
        ensures
            *final(self) == old(self).menu_up_spec(),
    {
        if let AppState::Menu { selected } = self {
            *selected = match selected.checked_sub(1) {
                Some(s) => s,
                None => MENU_ITEMS.len() - 1,
            };
        }
    }

    /// Moves the selection down, wrapping to the first difficulty.
    pub fn menu_down(&mut self)
        requires
            *old(self) matches AppState::Menu { selected } ==> selected < usize::MAX,
        ensures
            *final(self) == old(self).menu_down_spec(),
    {
        if let AppState::Menu { selected } = self {
            *selected = (*selected + 1) % MENU_ITEMS.len();
        }
    }

    /// The difficulty selected on the menu.
    pub fn selected_difficulty(&self) -> (r: Option<Difficulty>)
        requires
            self.wf(),
        ensures
            match *self {
                AppState::Menu { selected } => r == Some(menu_difficulty(selected as nat)),
                AppState::Playing { .. } => r is None,
            },
    {
        match self {
            AppState::Menu { selected } => {
                if *selected == 0 {
                    Some(MENU_ITEMS[0])
                } else if *selected == 1 {
                    Some(MENU_ITEMS[1])
                } else {
                    Some(MENU_ITEMS[2])
                }
            },
            AppState::Playing { .. } => None,
        }
    }

    /// Starts a run of the selected difficulty with the prompts of `queue`,
    /// showing its first one.
    pub fn start_game(&mut self, queue: WordQueue)
        requires
            old(self).wf(),
            queue.wf(),
        ensures
            final(self).wf(),
            match *old(self) {
                AppState::Menu { selected } => match *final(self) {
                    AppState::Playing { current_prompt, difficulty, queue: q } => difficulty
                        == menu_difficulty(selected as nat) && dealt(queue, q, current_prompt),
                    _ => false,
                },
                AppState::Playing { .. } => *final(self) == *old(self),
            },
    {
        let difficulty = match self.selected_difficulty() {
            Some(d) => d,
            None => {
                return ;
            },
        };
        let mut queue = queue;
        let first = queue.next();
        *self = AppState::Playing { current_prompt: first, difficulty, queue };
    }

    /// Shows the next prompt of the run.
    pub fn next_prompt(&mut self)
        requires
            old(self).wf(),
        ensures
            final(self).wf(),
            match *old(self) {
                AppState::Playing { queue: q0, difficulty: d0, .. } => match *final(self) {
                    AppState::Playing { current_prompt, difficulty, queue: q1 } => difficulty == d0
                        && dealt(q0, q1, current_prompt),
                    _ => false,
                },
                AppState::Menu { .. } => *final(self) == *old(self),
            },
    {
        if let AppState::Playing { current_prompt, queue, .. } = self {
            *current_prompt = queue.next();
        }
    }

    /// Back to the menu, with the first difficulty selected.
    pub fn back_to_menu(&mut self)
        ensures
            *final(self) == (AppState::Menu { selected: 0 }),
    {
        *self = AppState::Menu { selected: 0 };
    }
}

/// What one key does: the next state, and the request it makes of the caller,
/// if any. Starting a run and dealing a prompt need a word list or a shuffle,
/// so those keys leave the state as it is and ask for them.
pub open spec fn key_step(s: AppState, key: AppKey) -> (AppState, Option<PromptAction>) {
    match s {
        AppState::Menu { selected } => match key {
            AppKey::Up => (s.menu_up_spec(), None),
            AppKey::Down => (s.menu_down_spec(), None),
            AppKey::Confirm => (s, Some(PromptAction::Start(menu_difficulty(selected as nat)))),
            AppKey::Back => (s, Some(PromptAction::Quit)),
        },
        AppState::Playing { .. } => match key {
            AppKey::Confirm => (s, Some(PromptAction::NextPrompt)),
            AppKey::Back => (AppState::Menu { selected: 0 }, None),
            _ => (s, None),
        },
    }
}

/// The keys taken in order until one makes a request.
pub open spec fn run_keys(s: AppState, keys: Seq<AppKey>) -> (AppState, Option<PromptAction>)
    decreases keys.len(),
{
    if keys.len() == 0 {
        (s, None)
    } else {
        let (s1, a1) = run_keys(s, keys.drop_last());
        if a1 is Some {
            (s1, a1)
        } else {
            key_step(s1, keys.last())
        }
    }
}

/// Up then down (and down then up) on the difficulty menu comes back to the
/// same difficulty.
pub proof fn lemma_menu_moves_inverse(s: AppState)
    requires
        s.wf(),
    ensures
        s.menu_up_spec().menu_down_spec() == s,
        s.menu_down_spec().menu_up_spec() == s,
{
}

/// Every key keeps the state well formed.
pub proof fn lemma_key_step_keeps_wf(s: AppState, key: AppKey)
    requires
        s.wf(),
    ensures
        key_step(s, key).0.wf(),
{
}

/// What a key needs of the state it is pressed in: confirming on the menu
/// reads the difficulty at the selection, and moving down counts one past it.
pub open spec fn key_ok(s: AppState, key: AppKey) -> bool {
    match s {
        AppState::Menu { selected } => match key {
            AppKey::Confirm => selected < MENU_LEN,
            AppKey::Down => selected < usize::MAX,
            _ => true,
        },
        _ => true,
    }
}

/// Every key of the run, up to the one that makes a request, meets `key_ok` in
/// the state it is pressed in.
pub open spec fn keys_ok(s: AppState, keys: Seq<AppKey>) -> bool {
    forall|k: int|
        0 <= k < keys.len() && #[trigger] run_keys(s, keys.take(k)).1 is None ==> key_ok(
            run_keys(s, keys.take(k)).0,
            keys[k],
        )
}

proof fn lemma_run_keys_keeps_wf(s: AppState, keys: Seq<AppKey>)
    requires
        s.wf(),
    ensures
        run_keys(s, keys).0.wf(),
    decreases keys.len(),
{
    if keys.len() > 0 {
        lemma_run_keys_keeps_wf(s, keys.drop_last());
    }
}

/// From a well-formed state, every run of keys can be taken.
pub proof fn lemma_wf_takes_any_keys(s: AppState, keys: Seq<AppKey>)
    requires
        s.wf(),
    ensures
        keys_ok(s, keys),
{
    assert forall|k: int|
        0 <= k < keys.len() && #[trigger] run_keys(s, keys.take(k)).1 is None implies key_ok(
        run_keys(s, keys.take(k)).0,
        keys[k],
    ) by {
        lemma_run_keys_keeps_wf(s, keys.take(k));
    }
}

/// Takes keys in order until one makes a request (to quit, to start a run,
/// to deal the next prompt). Returns that request, or `Nothing` when every key
/// was taken, and the number of keys taken.
pub fn handle_keys(keys: &[AppKey], state: &mut AppState) -> (r: (PromptAction, usize))
    requires
        keys_ok(*old(state), keys@),
    ensures
        old(state).wf() ==> final(state).wf(),
        r.1 <= keys@.len(),
        r.0 == PromptAction::Nothing ==> r.1 == keys@.len(),
        run_keys(*old(state), keys@.take(r.1 as int)) == (
            *final(state),
            if r.0 == PromptAction::Nothing {
                None
            } else {
                Some(r.0)
            },
        ),
{
    let ghost s0 = *state;
    let mut i: usize = 0;
    assert(keys@.take(0) =~= Seq::<AppKey>::empty());
    while i < keys.len()
        invariant
            i <= keys@.len(),
            s0 == *old(state),
            keys_ok(s0, keys@),
            s0.wf() ==> state.wf(),
            run_keys(s0, keys@.take(i as int)) == (*state, None::<PromptAction>),
        decreases keys@.len() - i,
    {
        let key = keys[i];
        proof {
            assert(keys@.take(i + 1).drop_last() =~= keys@.take(i as int));
            assert(keys@.take(i + 1).last() == key);
            assert(run_keys(s0, keys@.take(i as int)).1 is None);
            assert(key_ok(*state, key));
            if state.wf() {
                lemma_key_step_keeps_wf(*state, key);
            }
        }
        i = i + 1;
        match key {
            AppKey::Up => state.menu_up(),
            AppKey::Down => state.menu_down(),
            AppKey::Confirm => {
                if let AppState::Menu { .. } = state {
                    if let Some(d) = state.selected_difficulty() {
                        return (PromptAction::Start(d), i);
                    }
                }
                return (PromptAction::NextPrompt, i);
            },
            AppKey::Back => {
                if let AppState::Menu { .. } = state {
                    return (PromptAction::Quit, i);
                }
                state.back_to_menu();
            },
        }
    }
    (PromptAction::Nothing, i)
}

} // verus!
