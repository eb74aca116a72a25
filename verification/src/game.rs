//! Message and state types shared by the chess demo's server and browser
//! client.

use vstd::prelude::*;
use vstd::string::*;

verus! {

/// The position of a chess game together with how it ended, if it has.
#[derive(Debug)]
pub struct GameState {
    /// The board in Forsyth-Edwards notation.
    pub fen: String,
    /// The most recent move, if any was played.
    pub last_move: Option<String>,
    /// Whether the game has ended.
    pub game_over: bool,
    /// The winning side; `None` while the game runs or when it was drawn.
    pub winner: Option<String>,
}

/// Mathematical content of a [`GameState`].
pub struct GameStateView {
    pub fen: Seq<char>,
    pub last_move: Option<Seq<char>>,
    pub game_over: bool,
    pub winner: Option<Seq<char>>,
}

/// The characters of an optional string.
pub open spec fn option_text(s: Option<String>) -> Option<Seq<char>> {
    match s {
        Some(text) => Some(text@),
        None => None,
    }
}

/// The standard starting position in Forsyth-Edwards notation.
pub open spec fn initial_fen() -> Seq<char> {
    "rnbqkbnr/pppppppp/8/8/8/8/PPPPPPPP/RNBQKBNR w KQkq - 0 1"@
}

/// The state of a game in which no move has been played.
pub open spec fn initial_game() -> GameStateView {
    GameStateView { fen: initial_fen(), last_move: None, game_over: false, winner: None }
}

impl View for GameState {
    type V = GameStateView;

    open spec fn view(&self) -> GameStateView {
        GameStateView {
            fen: self.fen@,
            last_move: option_text(self.last_move),
            game_over: self.game_over,
            winner: option_text(self.winner),
        }
    }
}

/// A copy of an optional string.
fn copy_text(text: &Option<String>) -> (copy: Option<String>)
    ensures
        option_text(copy) == option_text(*text),
{
    match text {
        Some(text) => Some(text.clone()),
        None => None,
    }
}

impl Clone for GameState {
    fn clone(&self) -> (copy: GameState)
        ensures
            copy@ == self@,
    {
        GameState {
            fen: self.fen.clone(),
            last_move: copy_text(&self.last_move),
            game_over: self.game_over,
            winner: copy_text(&self.winner),
        }
    }
}

impl GameState {
    /// A fresh game: the standard starting position, nothing played, nobody
    /// has won.
    pub fn new() -> (state: GameState)
        ensures
            state@ == initial_game(),
    {
        GameState {
            fen: String::from_str("rnbqkbnr/pppppppp/8/8/8/8/PPPPPPPP/RNBQKBNR w KQkq - 0 1"),
            last_move: None,
            game_over: false,
            winner: None,
        }
    }
}

/// What server and client say to each other.
#[derive(Debug, Clone)]
pub enum GameMessage {
    /// Ask for the game to be reset.
    NewGame,
    /// A move in coordinate notation.
    Move(String),
    /// The authoritative state of the game.
    GameState(GameState),
    /// Something went wrong; the text says what.
    Error(String),
}

/// Mathematical content of a [`GameMessage`].
pub enum GameMessageView {
    NewGame,
    Move(Seq<char>),
    GameState(GameStateView),
    Error(Seq<char>),
}

impl View for GameMessage {
    type V = GameMessageView;

    open spec fn view(&self) -> GameMessageView {
        match self {
            GameMessage::NewGame => GameMessageView::NewGame,
            GameMessage::Move(played) => GameMessageView::Move(played@),
            GameMessage::GameState(state) => GameMessageView::GameState(state@),
            GameMessage::Error(text) => GameMessageView::Error(text@),
        }
    }
}

/// A move submitted for a game.
#[derive(Debug, Clone)]
pub struct MoveRequest {
    pub move_str: String,
    pub game_id: Option<String>,
}

/// The server's answer to a move.
#[derive(Debug, Clone)]
pub struct MoveResponse {
    pub success: bool,
    pub error: Option<String>,
    pub game_state: Option<GameState>,
}

/// Mathematical content of a [`MoveResponse`].
pub struct MoveResponseView {
    pub success: bool,
    pub error: Option<Seq<char>>,
    pub game_state: Option<GameStateView>,
}

impl View for MoveResponse {
    type V = MoveResponseView;

    open spec fn view(&self) -> MoveResponseView {
        MoveResponseView {
            success: self.success,
            error: option_text(self.error),
            game_state: match self.game_state {
                Some(state) => Some(state@),
                None => None,
            },
        }
    }
}

/// What the server sends to every connected client.
#[derive(Debug)]
pub enum Broadcast {
    /// The answer to a move.
    Response(MoveResponse),
    /// A message of the game protocol.
    Message(GameMessage),
}

/// Mathematical content of a [`Broadcast`].
pub enum BroadcastView {
    Response(MoveResponseView),
    Message(GameMessageView),
}

impl View for Broadcast {
    type V = BroadcastView;

    open spec fn view(&self) -> BroadcastView {
        match self {
            Broadcast::Response(response) => BroadcastView::Response(response@),
            Broadcast::Message(message) => BroadcastView::Message(message@),
        }
    }
}

/// The state of the game after the server has taken in a message.
pub open spec fn served_state(state: GameStateView, message: GameMessageView) -> GameStateView {
    match message {
        GameMessageView::NewGame => initial_game(),
        _ => state,
    }
}

/// What the server sends to all clients on a message: on a move the answer
/// to it, with the state of the game; on a request for a new game the fresh
/// state; nothing on any other message.
pub open spec fn served_broadcast(state: GameStateView, message: GameMessageView) -> Option<
    BroadcastView,
> {
    match message {
        GameMessageView::Move(played) => Some(
            BroadcastView::Response(
                MoveResponseView { success: true, error: None, game_state: Some(state) },
            ),
        ),
        GameMessageView::NewGame => Some(
            BroadcastView::Message(GameMessageView::GameState(initial_game())),
        ),
        _ => None,
    }
}

/// The message that greets a client that has just connected: the current
/// state of the game.
pub fn greeting(state: &GameState) -> (message: GameMessage)
    ensures
        message@ == GameMessageView::GameState(state@),
{
    GameMessage::GameState(state.clone())
}

/// Takes a client's message in on the server: updates the state of the game
/// and returns what is to be sent to all clients. A move is accepted as it
/// comes; the state of the game does not change with it.
pub fn serve(state: &mut GameState, message: GameMessage) -> (broadcast: Option<Broadcast>)
    ensures
        final(state)@ == served_state(old(state)@, message@),
        match broadcast {
            Some(sent) => served_broadcast(old(state)@, message@) == Some(sent@),
            None => served_broadcast(old(state)@, message@) is None,
        },
{
    match message {
        GameMessage::Move(_) => Some(
            Broadcast::Response(
                MoveResponse { success: true, error: None, game_state: Some(state.clone()) },
            ),
        ),
        GameMessage::NewGame => {
            *state = GameState::new();
            Some(Broadcast::Message(GameMessage::GameState(state.clone())))
        },
        _ => None,
    }
}

/// What the browser client knows: the state of the game as the server last
/// reported it, and the failure to show, if any.
#[derive(Debug)]
pub struct ClientModel {
    pub game_state: GameState,
    pub error: Option<String>,
}

/// Mathematical content of a [`ClientModel`].
pub struct ClientModelView {
    pub game_state: GameStateView,
    pub error: Option<Seq<char>>,
}

impl View for ClientModel {
    type V = ClientModelView;

    open spec fn view(&self) -> ClientModelView {
        ClientModelView { game_state: self.game_state@, error: option_text(self.error) }
    }
}

/// What reaches the browser client.
#[derive(Debug)]
pub enum ClientEvent {
    /// A message of the server.
    Message(GameMessage),
    /// Text from the server that is no message of the game protocol.
    Undecodable,
    /// The connection failed; the text says how.
    SocketError(String),
    /// The connection was closed.
    SocketClosed,
    /// A new state of the game from elsewhere in the client.
    StateUpdate(GameState),
}

/// Mathematical content of a [`ClientEvent`].
pub enum ClientEventView {
    Message(GameMessageView),
    Undecodable,
    SocketError(Seq<char>),
    SocketClosed,
    StateUpdate(GameStateView),
}

impl View for ClientEvent {
    type V = ClientEventView;

    open spec fn view(&self) -> ClientEventView {
        match self {
            ClientEvent::Message(message) => ClientEventView::Message(message@),
            ClientEvent::Undecodable => ClientEventView::Undecodable,
            ClientEvent::SocketError(text) => ClientEventView::SocketError(text@),
            ClientEvent::SocketClosed => ClientEventView::SocketClosed,
            ClientEvent::StateUpdate(state) => ClientEventView::StateUpdate(state@),
        }
    }
}

/// The failure shown when the connection was closed.
pub open spec fn closed_text() -> Seq<char> {
    "WebSocket connection closed"@
}

impl ClientModelView {
    /// The client after an event: a reported state replaces the state and
    /// clears the failure; a reported failure, a failed or a closed
    /// connection set the failure; a state update replaces the state alone.
    pub open spec fn updated(self, event: ClientEventView) -> ClientModelView {
        match event {
            ClientEventView::Message(GameMessageView::GameState(state)) => ClientModelView {
                game_state: state,
                error: None,
            },
            ClientEventView::Message(GameMessageView::Error(text)) => ClientModelView {
                error: Some(text),
                ..self
            },
            ClientEventView::Message(_) => self,
            ClientEventView::Undecodable => self,
            ClientEventView::SocketError(text) => ClientModelView { error: Some(text), ..self },
            ClientEventView::SocketClosed => ClientModelView { error: Some(closed_text()), ..self },
            ClientEventView::StateUpdate(state) => ClientModelView { game_state: state, ..self },
        }
    }
}

impl ClientModel {
    /// A client that has heard nothing yet: a fresh game, no failure.
    pub fn new() -> (model: ClientModel)
        ensures
            model@ == (ClientModelView { game_state: initial_game(), error: None }),
    {
        ClientModel { game_state: GameState::new(), error: None }
    }

    /// Takes an event in. Returns whether the view has to be drawn again,
    /// which is so after every event.
    pub fn update(&mut self, event: ClientEvent) -> (redraw: bool)
        ensures
            final(self)@ == old(self)@.updated(event@),
            redraw,
    {
        match event {
            ClientEvent::Message(GameMessage::GameState(state)) => {
                self.game_state = state;
                self.error = None;
            },
            ClientEvent::Message(GameMessage::Error(text)) => {
                self.error = Some(text);
            },
            ClientEvent::Message(_) => {},
            ClientEvent::Undecodable => {},
            ClientEvent::SocketError(text) => {
                self.error = Some(text);
            },
            ClientEvent::SocketClosed => {
                self.error = Some(String::from_str("WebSocket connection closed"));
            },
            ClientEvent::StateUpdate(state) => {
                self.game_state = state;
            },
        }
        true
    }
}

} // verus!
