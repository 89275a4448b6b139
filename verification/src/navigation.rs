//! The navigation stack: which screen is current, which screens wait below
//! it, and which moves between screens are legal.
//!
//! A move is a push (the current screen waits on the stack while the target
//! runs), a pop (the current screen ends and the one below resumes), or a
//! replacement (the current screen ends and the target takes its place, the
//! stack staying as it is). A table says from which screen each move may be
//! made. A move that is not legal is refused with the reason, and changes
//! nothing.

use crate::nearest::NearestNPCinProximity;
use crate::screen::AppState;
use vstd::prelude::*;

verus! {

/// A move that the controller is asked to make.
#[derive(Clone, Copy, Debug, PartialEq, Eq, Structural)]
pub enum TransitionRequest {
    /// Suspend the current screen and make the target current.
    Push(AppState),
    /// End the current screen and resume the one below it.
    Pop,
    /// End the current screen and make the target current in its place.
    Replace(AppState),
    /// Make the target the first screen. Legal once, before anything else.
    SetInitial(AppState),
}

/// Why a move was refused.
#[derive(Clone, Copy, Debug, PartialEq, Eq, Structural)]
pub enum TransitionError {
    /// No first screen has been set yet.
    NotStarted,
    /// The first screen has been set already.
    AlreadyStarted,
    /// The target is the current screen.
    AlreadyInState,
    /// The table does not allow this move from the current screen.
    IllegalSource,
    /// The target waits on the stack: it can be resumed, not entered anew.
    AlreadySuspended,
    /// Nothing waits on the stack.
    StackEmpty,
}

/// What the surroundings must do for a move that was made: set up the screen
/// that is entered, tear down the one that is exited.
#[derive(Clone, Copy, Debug, PartialEq, Eq, Structural)]
pub enum LifecycleHook {
    Enter(AppState),
    Exit(AppState),
}

/// The table of pushes: the pause screen opens over the game and over a
/// dialog, a dialog opens over the game, the settings open over the main menu
/// and over the pause screen.
pub open spec fn push_allowed(source: AppState, target: AppState) -> bool {
    match (source, target) {
        (AppState::InGame, AppState::PauseScreen) => true,
        (AppState::DialogWindow, AppState::PauseScreen) => true,
        (AppState::InGame, AppState::DialogWindow) => true,
        (AppState::MainMenu, AppState::Settings) => true,
        (AppState::PauseScreen, AppState::Settings) => true,
        _ => false,
    }
}

/// The screens that can be popped: those that open over another screen.
pub open spec fn pop_allowed(source: AppState) -> bool {
    match source {
        AppState::PauseScreen => true,
        AppState::DialogWindow => true,
        AppState::Settings => true,
        _ => false,
    }
}

/// The table of replacements: the pause screen and the settings give way to
/// the main menu, the main menu gives way to the game.
pub open spec fn replace_allowed(source: AppState, target: AppState) -> bool {
    match (source, target) {
        (AppState::PauseScreen, AppState::MainMenu) => true,
        (AppState::Settings, AppState::MainMenu) => true,
        (AppState::MainMenu, AppState::InGame) => true,
        _ => false,
    }
}

/// Whether the table allows a push of `target` from `source`.
pub fn can_push(source: AppState, target: AppState) -> (yes: bool)
    ensures
        yes == push_allowed(source, target),
{
    match (source, target) {
        (AppState::InGame, AppState::PauseScreen) => true,
        (AppState::DialogWindow, AppState::PauseScreen) => true,
        (AppState::InGame, AppState::DialogWindow) => true,
        (AppState::MainMenu, AppState::Settings) => true,
        (AppState::PauseScreen, AppState::Settings) => true,
        _ => false,
    }
}

/// Whether the table allows a pop from `source`.
pub fn can_pop(source: AppState) -> (yes: bool)
    ensures
        yes == pop_allowed(source),
{
    match source {
        AppState::PauseScreen => true,
        AppState::DialogWindow => true,
        AppState::Settings => true,
        _ => false,
    }
}

/// Whether the table allows `target` to replace `source`.
pub fn can_replace(source: AppState, target: AppState) -> (yes: bool)
    ensures
        yes == replace_allowed(source, target),
{
    match (source, target) {
        (AppState::PauseScreen, AppState::MainMenu) => true,
        (AppState::Settings, AppState::MainMenu) => true,
        (AppState::MainMenu, AppState::InGame) => true,
        _ => false,
    }
}

/// The controller as a mathematical value: the current screen, if a first
/// screen has been set, and the suspended screens from the bottom up.
pub struct Navigation {
    pub current: Option<AppState>,
    pub stack: Seq<AppState>,
}

impl Navigation {
    /// The controller before its first screen is set.
    pub open spec fn start() -> Navigation {
        Navigation { current: None, stack: Seq::empty() }
    }

    /// What holds of every controller: nothing is suspended before a first
    /// screen is set, no screen is suspended twice, and the current screen is
    /// not suspended.
    pub open spec fn wf(self) -> bool {
        &&& self.current is None ==> self.stack.len() == 0
        &&& self.stack.no_duplicates()
        &&& self.current matches Some(c) ==> !self.stack.contains(c)
    }

    /// Why `request` is refused, or `None` where it is legal.
    pub open spec fn refusal(self, request: TransitionRequest) -> Option<TransitionError> {
        match (request, self.current) {
            (TransitionRequest::SetInitial(_), None) => None,
            (TransitionRequest::SetInitial(_), Some(_)) => Some(TransitionError::AlreadyStarted),
            (_, None) => Some(TransitionError::NotStarted),
            (TransitionRequest::Push(target), Some(c)) => if c == target {
                Some(TransitionError::AlreadyInState)
            } else if !push_allowed(c, target) {
                Some(TransitionError::IllegalSource)
            } else if self.stack.contains(target) {
                Some(TransitionError::AlreadySuspended)
            } else {
                None
            },
            (TransitionRequest::Replace(target), Some(c)) => if c == target {
                Some(TransitionError::AlreadyInState)
            } else if !replace_allowed(c, target) {
                Some(TransitionError::IllegalSource)
            } else if self.stack.contains(target) {
                Some(TransitionError::AlreadySuspended)
            } else {
                None
            },
            (TransitionRequest::Pop, Some(c)) => if self.stack.len() == 0 {
                Some(TransitionError::StackEmpty)
            } else if !pop_allowed(c) {
                Some(TransitionError::IllegalSource)
            } else {
                None
            },
        }
    }

    /// Whether `request` is legal.
    pub open spec fn legal(self, request: TransitionRequest) -> bool {
        self.refusal(request) is None
    }

    /// The plain stack discipline: what `request` makes of the controller when
    /// nothing is asked about its legality.
    pub open spec fn after(self, request: TransitionRequest) -> Navigation {
        match request {
            TransitionRequest::Push(target) => Navigation {
                current: Some(target),
                stack: self.stack.push(self.current.unwrap()),
            },
            TransitionRequest::Pop => Navigation {
                current: Some(self.stack.last()),
                stack: self.stack.drop_last(),
            },
            TransitionRequest::Replace(target) => Navigation {
                current: Some(target),
                stack: self.stack,
            },
            TransitionRequest::SetInitial(target) => Navigation {
                current: Some(target),
                stack: self.stack,
            },
        }
    }

    /// The hooks that a legal `request` gives rise to, in the order in which
    /// they are to run. A replacement tears the old screen down before it
    /// sets the new one up. A pop resumes the screen below without entering
    /// it again.
    pub open spec fn hooks(self, request: TransitionRequest) -> Seq<LifecycleHook> {
        match request {
            TransitionRequest::Push(target) => seq![LifecycleHook::Enter(target)],
            TransitionRequest::Pop => seq![LifecycleHook::Exit(self.current.unwrap())],
            TransitionRequest::Replace(target) => seq![
                LifecycleHook::Exit(self.current.unwrap()),
                LifecycleHook::Enter(target),
            ],
            TransitionRequest::SetInitial(target) => seq![LifecycleHook::Enter(target)],
        }
    }

    /// What the controller makes of `request`: the move where it is legal,
    /// nothing where it is not.
    pub open spec fn step(self, request: TransitionRequest) -> Navigation {
        if self.legal(request) {
            self.after(request)
        } else {
            self
        }
    }

    /// Whether `result` and `next` are the controller's answer to `request`:
    /// a refusal with its reason and no change, or the hooks of the move and
    /// the controller after it.
    pub open spec fn answers(
        self,
        request: TransitionRequest,
        result: Result<Vec<LifecycleHook>, TransitionError>,
        next: Navigation,
    ) -> bool {
        match self.refusal(request) {
            Some(e) => result == Err::<Vec<LifecycleHook>, TransitionError>(e) && next == self,
            None => result matches Ok(hooks) && hooks@ == self.hooks(request) && next
                == self.after(request),
        }
    }
}

/// The navigation stack controller.
pub struct NavigationStack {
    current: Option<AppState>,
    stack: Vec<AppState>,
}

impl View for NavigationStack {
    type V = Navigation;

    closed spec fn view(&self) -> Navigation {
        Navigation { current: self.current, stack: self.stack@ }
    }
}

impl NavigationStack {
    /// A controller whose first screen is yet to be set.
    pub fn new() -> (nav: Self)
        ensures
            nav@ == Navigation::start(),
            nav@.wf(),
    {
        NavigationStack { current: None, stack: Vec::new() }
    }

    /// The current screen, or `None` before the first screen is set.
    pub fn current(&self) -> (current: Option<AppState>)
        ensures
            current == self@.current,
    {
        self.current
    }

    /// The suspended screens, from the bottom of the stack up.
    pub fn inactives(&self) -> (stack: &Vec<AppState>)
        ensures
            stack@ == self@.stack,
    {
        &self.stack
    }

    /// The number of suspended screens. A well-formed controller has at most
    /// four.
    pub fn depth(&self) -> (depth: usize)
        ensures
            depth == self@.stack.len(),
            self@.wf() ==> depth <= 4,
    {
        proof {
            if self@.wf() {
                lemma_depth_bounded(self@);
            }
        }
        self.stack.len()
    }

    /// Whether `state` is suspended.
    pub fn is_suspended(&self, state: AppState) -> (yes: bool)
        ensures
            yes == self@.stack.contains(state),
    {
        let mut i: usize = 0;
        while i < self.stack.len()
            invariant
                i <= self.stack.len(),
                forall|j: int| 0 <= j < i ==> self.stack@[j] != state,
            decreases self.stack.len() - i,
        {
            if self.stack[i] == state {
                return true;
            }
            i = i + 1;
        }
        false
    }

    /// Sets the first screen. Legal once, on a controller that has none.
    pub fn request_set_initial(&mut self, target: AppState) -> (result: Result<
        Vec<LifecycleHook>,
        TransitionError,
    >)
        ensures
            old(self)@.answers(TransitionRequest::SetInitial(target), result, final(self)@),
            result is Ok <==> old(self)@.current is None,
            final(self)@.stack.len() == old(self)@.stack.len(),
            old(self)@.wf() ==> final(self)@.wf(),
    {
        if self.current.is_some() {
            return Err(TransitionError::AlreadyStarted);
        }
        self.current = Some(target);
        let mut hooks: Vec<LifecycleHook> = Vec::new();
        hooks.push(LifecycleHook::Enter(target));
        Ok(hooks)
    }

    /// Suspends the current screen and makes `target` current.
    pub fn request_push(&mut self, target: AppState) -> (result: Result<
        Vec<LifecycleHook>,
        TransitionError,
    >)
        ensures
            old(self)@.answers(TransitionRequest::Push(target), result, final(self)@),
            result is Ok ==> final(self)@.stack.len() == old(self)@.stack.len() + 1,
            result is Err ==> final(self)@.stack.len() == old(self)@.stack.len(),
            old(self)@.wf() ==> final(self)@.wf(),
    {
        let current = match self.current {
            Some(c) => c,
            None => {
                return Err(TransitionError::NotStarted);
            },
        };
        if current == target {
            return Err(TransitionError::AlreadyInState);
        }
        if !can_push(current, target) {
            return Err(TransitionError::IllegalSource);
        }
        if self.is_suspended(target) {
            return Err(TransitionError::AlreadySuspended);
        }
        self.stack.push(current);
        self.current = Some(target);
        let mut hooks: Vec<LifecycleHook> = Vec::new();
        hooks.push(LifecycleHook::Enter(target));
        Ok(hooks)
    }

    /// Ends the current screen and resumes the one below it.
    pub fn request_pop(&mut self) -> (result: Result<Vec<LifecycleHook>, TransitionError>)
        ensures
            old(self)@.answers(TransitionRequest::Pop, result, final(self)@),
            result is Ok ==> final(self)@.stack.len() == old(self)@.stack.len() - 1,
            result is Err ==> final(self)@.stack.len() == old(self)@.stack.len(),
            old(self)@.wf() ==> final(self)@.wf(),
    {
        let current = match self.current {
            Some(c) => c,
            None => {
                return Err(TransitionError::NotStarted);
            },
        };
        if self.stack.len() == 0 {
            return Err(TransitionError::StackEmpty);
        }
        if !can_pop(current) {
            return Err(TransitionError::IllegalSource);
        }
        let resumed = self.stack.pop();
        self.current = resumed;
        let mut hooks: Vec<LifecycleHook> = Vec::new();
        hooks.push(LifecycleHook::Exit(current));
        Ok(hooks)
    }

    /// Ends the current screen and makes `target` current in its place.
    pub fn request_replace(&mut self, target: AppState) -> (result: Result<
        Vec<LifecycleHook>,
        TransitionError,
    >)
        ensures
            old(self)@.answers(TransitionRequest::Replace(target), result, final(self)@),
            final(self)@.stack.len() == old(self)@.stack.len(),
            old(self)@.wf() ==> final(self)@.wf(),
    {
        let current = match self.current {
            Some(c) => c,
            None => {
                return Err(TransitionError::NotStarted);
            },
        };
        if current == target {
            return Err(TransitionError::AlreadyInState);
        }
        if !can_replace(current, target) {
            return Err(TransitionError::IllegalSource);
        }
        if self.is_suspended(target) {
            return Err(TransitionError::AlreadySuspended);
        }
        self.current = Some(target);
        let mut hooks: Vec<LifecycleHook> = Vec::new();
        hooks.push(LifecycleHook::Exit(current));
        hooks.push(LifecycleHook::Enter(target));
        assert(hooks@ == old(self)@.hooks(TransitionRequest::Replace(target)));
        Ok(hooks)
    }

    /// Makes the move that `request` names, or refuses it.
    pub fn request(&mut self, request: TransitionRequest) -> (result: Result<
        Vec<LifecycleHook>,
        TransitionError,
    >)
        ensures
            old(self)@.answers(request, result, final(self)@),
            result is Ok <==> old(self)@.legal(request),
            final(self)@ == old(self)@.step(request),
            old(self)@.wf() ==> final(self)@.wf(),
    {
        match request {
            TransitionRequest::Push(target) => self.request_push(target),
            TransitionRequest::Pop => self.request_pop(),
            TransitionRequest::Replace(target) => self.request_replace(target),
            TransitionRequest::SetInitial(target) => self.request_set_initial(target),
        }
    }
}

impl Default for NavigationStack {
    fn default() -> (nav: Self)
        ensures
            nav@ == Navigation::start(),
            nav@.wf(),
    {
        NavigationStack::new()
    }
}

/// A legal move keeps the controller well formed, and so does a refusal.
pub proof fn lemma_step_keeps_wf(nav: Navigation, request: TransitionRequest)
    requires
        nav.wf(),
    ensures
        nav.step(request).wf(),
{
}

/// What the main menu key asks for: from the main menu the game replaces it,
/// from every other screen the main menu is to replace that screen. The
/// table allows the latter from the pause screen and from the settings only,
/// so from the game and from a dialog the key is refused.
pub open spec fn main_menu_request(current: Option<AppState>) -> TransitionRequest {
    match current {
        Some(AppState::MainMenu) => TransitionRequest::Replace(AppState::InGame),
        _ => TransitionRequest::Replace(AppState::MainMenu),
    }
}

/// What the pause key asks for: the pause screen opens over the game and over
/// a dialog, and closes again. On the other screens the key does nothing.
pub open spec fn pause_screen_request(current: Option<AppState>) -> Option<TransitionRequest> {
    match current {
        Some(AppState::InGame) => Some(TransitionRequest::Push(AppState::PauseScreen)),
        Some(AppState::DialogWindow) => Some(TransitionRequest::Push(AppState::PauseScreen)),
        Some(AppState::PauseScreen) => Some(TransitionRequest::Pop),
        _ => None,
    }
}

/// What the dialog key asks for: a dialog opens over the game where some
/// entity is near, and closes again. Otherwise the key does nothing.
pub open spec fn dialog_window_request(current: Option<AppState>, any_near: bool) -> Option<
    TransitionRequest,
> {
    match current {
        Some(AppState::InGame) => if any_near {
            Some(TransitionRequest::Push(AppState::DialogWindow))
        } else {
            None
        },
        Some(AppState::DialogWindow) => Some(TransitionRequest::Pop),
        _ => None,
    }
}

/// What the settings key asks for: the settings open over the main menu and
/// over the pause screen, and close again. On the other screens the key does
/// nothing.
pub open spec fn settings_window_request(current: Option<AppState>) -> Option<TransitionRequest> {
    match current {
        Some(AppState::MainMenu) => Some(TransitionRequest::Push(AppState::Settings)),
        Some(AppState::PauseScreen) => Some(TransitionRequest::Push(AppState::Settings)),
        Some(AppState::Settings) => Some(TransitionRequest::Pop),
        _ => None,
    }
}

/// Whether `result` and `next` are what a key press makes of the controller
/// `nav`: the answer to the request that the key stands for, or, where it
/// stands for none, no hooks and no change.
pub open spec fn triggered(
    nav: Navigation,
    request: Option<TransitionRequest>,
    result: Result<Vec<LifecycleHook>, TransitionError>,
    next: Navigation,
) -> bool {
    match request {
        Some(r) => nav.answers(r, result, next),
        None => result matches Ok(hooks) && hooks@.len() == 0 && next == nav,
    }
}

/// The main menu key.
pub fn main_menu_trigger(app_state: &mut NavigationStack) -> (result: Result<
    Vec<LifecycleHook>,
    TransitionError,
>)
    ensures
        old(app_state)@.answers(
            main_menu_request(old(app_state)@.current),
            result,
            final(app_state)@,
        ),
        old(app_state)@.wf() ==> final(app_state)@.wf(),
{
    match app_state.current() {
        Some(AppState::MainMenu) => app_state.request_replace(AppState::InGame),
        _ => app_state.request_replace(AppState::MainMenu),
    }
}

/// The pause key.
pub fn pause_screen_trigger(app_state: &mut NavigationStack) -> (result: Result<
    Vec<LifecycleHook>,
    TransitionError,
>)
    ensures
        triggered(
            old(app_state)@,
            pause_screen_request(old(app_state)@.current),
            result,
            final(app_state)@,
        ),
        old(app_state)@.wf() ==> final(app_state)@.wf(),
{
    match app_state.current() {
        Some(AppState::InGame) => app_state.request_push(AppState::PauseScreen),
        Some(AppState::DialogWindow) => app_state.request_push(AppState::PauseScreen),
        Some(AppState::PauseScreen) => app_state.request_pop(),
        _ => Ok(Vec::new()),
    }
}

/// The dialog key. A dialog needs someone to talk to: from the game it opens
/// only where `nearest_npc_in_proximity` holds an entity.
pub fn dialog_window_trigger(
    app_state: &mut NavigationStack,
    nearest_npc_in_proximity: &NearestNPCinProximity,
) -> (result: Result<Vec<LifecycleHook>, TransitionError>)
    ensures
        triggered(
            old(app_state)@,
            dialog_window_request(old(app_state)@.current, nearest_npc_in_proximity@.len() > 0),
            result,
            final(app_state)@,
        ),
        old(app_state)@.wf() ==> final(app_state)@.wf(),
{
    match app_state.current() {
        Some(AppState::InGame) => {
            if nearest_npc_in_proximity.any() {
                app_state.request_push(AppState::DialogWindow)
            } else {
                Ok(Vec::new())
            }
        },
        Some(AppState::DialogWindow) => app_state.request_pop(),
        _ => Ok(Vec::new()),
    }
}

/// The settings key.
pub fn settings_window_trigger(app_state: &mut NavigationStack) -> (result: Result<
    Vec<LifecycleHook>,
    TransitionError,
>)
    ensures
        triggered(
            old(app_state)@,
            settings_window_request(old(app_state)@.current),
            result,
            final(app_state)@,
        ),
        old(app_state)@.wf() ==> final(app_state)@.wf(),
{
    match app_state.current() {
        Some(AppState::MainMenu) => app_state.request_push(AppState::Settings),
        Some(AppState::PauseScreen) => app_state.request_push(AppState::Settings),
        Some(AppState::Settings) => app_state.request_pop(),
        _ => Ok(Vec::new()),
    }
}

/// The controller after a sequence of requests, each of them made where it is
/// legal and refused where it is not.
pub open spec fn run(nav: Navigation, requests: Seq<TransitionRequest>) -> Navigation
    decreases requests.len(),
{
    if requests.len() == 0 {
        nav
    } else {
        run(nav, requests.drop_last()).step(requests.last())
    }
}

/// The plain stack discipline applied to a sequence of requests.
pub open spec fn replay(nav: Navigation, requests: Seq<TransitionRequest>) -> Navigation
    decreases requests.len(),
{
    if requests.len() == 0 {
        nav
    } else {
        replay(nav, requests.drop_last()).after(requests.last())
    }
}

/// Whether every request of the sequence is legal at the point where it is
/// made.
pub open spec fn consistent(nav: Navigation, requests: Seq<TransitionRequest>) -> bool
    decreases requests.len(),
{
    requests.len() == 0 || (consistent(nav, requests.drop_last()) && run(
        nav,
        requests.drop_last(),
    ).legal(requests.last()))
}

/// Along a sequence of requests that the table allows throughout, the
/// controller is at every point where the plain stack discipline puts it:
/// after any prefix, its current screen and its stack are those that pushing
/// and popping by the book give.
pub proof fn lemma_run_is_replay(nav: Navigation, requests: Seq<TransitionRequest>)
    requires
        consistent(nav, requests),
    ensures
        forall|k: int|
            0 <= k <= requests.len() ==> run(nav, #[trigger] requests.take(k)) == replay(
                nav,
                requests.take(k),
            ),
    decreases requests.len(),
{
    assert forall|k: int| 0 <= k <= requests.len() implies run(nav, #[trigger] requests.take(k))
        == replay(nav, requests.take(k)) by {
        if k == requests.len() {
            assert(requests.take(k) == requests);
            if requests.len() > 0 {
                let shorter = requests.drop_last();
                lemma_run_is_replay(nav, shorter);
                assert(shorter.take(shorter.len() as int) == shorter);
            }
        } else {
            assert(requests.drop_last().take(k) == requests.take(k));
            lemma_run_is_replay(nav, requests.drop_last());
        }
    }
}

/// A sequence of requests leaves a well-formed controller well formed,
/// whether or not all of them are legal.
pub proof fn lemma_run_keeps_wf(nav: Navigation, requests: Seq<TransitionRequest>)
    requires
        nav.wf(),
    ensures
        run(nav, requests).wf(),
    decreases requests.len(),
{
    if requests.len() > 0 {
        lemma_run_keeps_wf(nav, requests.drop_last());
        lemma_step_keeps_wf(run(nav, requests.drop_last()), requests.last());
    }
}

/// A pop after a push leads back: the push of a legal target can always be
/// popped, and the pop restores the controller as it was before the push.
pub proof fn lemma_pop_undoes_push(nav: Navigation, target: AppState)
    requires
        nav.legal(TransitionRequest::Push(target)),
    ensures
        nav.after(TransitionRequest::Push(target)).legal(TransitionRequest::Pop),
        nav.after(TransitionRequest::Push(target)).after(TransitionRequest::Pop) == nav,
{
    let pushed = nav.after(TransitionRequest::Push(target));
    assert(pushed.stack.drop_last() == nav.stack);
}

/// A screen that was reached by a replacement cannot be popped.
pub proof fn lemma_no_pop_after_replace(nav: Navigation, target: AppState)
    requires
        nav.legal(TransitionRequest::Replace(target)),
    ensures
        !nav.after(TransitionRequest::Replace(target)).legal(TransitionRequest::Pop),
{
}

/// A push makes the stack one deeper, a pop one shallower, and a replacement
/// leaves its depth alone. So does the setting of the first screen.
pub proof fn lemma_depth_changes(nav: Navigation, request: TransitionRequest)
    requires
        nav.legal(request),
    ensures
        nav.step(request).stack.len() == nav.stack.len() + (match request {
            TransitionRequest::Push(_) => 1int,
            TransitionRequest::Pop => -1int,
            TransitionRequest::Replace(_) => 0int,
            TransitionRequest::SetInitial(_) => 0int,
        }),
{
}

/// The stack cannot grow without bound: with five screens, none of them
/// suspended twice and the current one not suspended, at most four wait.
pub proof fn lemma_depth_bounded(nav: Navigation)
    requires
        nav.wf(),
    ensures
        nav.stack.len() <= 4,
{
    if let Some(c) = nav.current {
        let all = set![
            AppState::MainMenu,
            AppState::InGame,
            AppState::PauseScreen,
            AppState::Settings,
            AppState::DialogWindow,
        ];
        let others = all.remove(c);
        nav.stack.unique_seq_to_set();
        vstd::set_lib::lemma_len_subset(nav.stack.to_set(), others);
    }
}

} // verus!
