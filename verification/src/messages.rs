//! The typed message protocol between the arbiter (the game board) and the
//! player actors: request kinds, their tagged requests and replies, and the
//! error taxonomy for invalid moves and malformed messages.

use vstd::prelude::*;

use crate::color::TileColor;

verus! {

/// Why a move or a message was rejected.
#[derive(Clone, Copy, Debug, PartialEq, Eq, Structural)]
pub enum InvalidMoveError {
    /// The sentinel was passed where a drawable color is required.
    BadColorError,
    /// Display index out of range, or the display holds none of the color.
    BadFactoryRequestError,
    /// The pool holds none of the requested color.
    BadPoolRequestError,
    /// A row index outside the five pattern lines.
    BadInputRowIdxError,
    /// A structurally invalid or unrecognized message.
    BadRequestError,
    UnknownError,
}

/// The request kinds of the arbiter protocol.
#[derive(Clone, Copy, Debug, PartialEq, Eq, Structural)]
pub enum AzoolRequestType {
    ReqTypeDrawFromFactory,
    ReqTypeDrawFromPool,
    ReqTypeDiscardFromFactory,
    ReqTypeDiscardFromPool,
    ReqTypeReturnToBag,
    ReqTypeGetBoard,
    ReqTypeBeginTurn,
    ReqTypeTurnFinished,
    ReqTypeInvalid,
}

impl AzoolRequestType {
    /// The wire name of a request kind.
    pub fn get_string(&self) -> (r: String)
        ensures
            r@ == spec_req_type_string(*self),
    {
        match self {
            AzoolRequestType::ReqTypeDrawFromFactory => String::from_str("DRAW_FROM_FACTORY"),
            AzoolRequestType::ReqTypeDrawFromPool => String::from_str("DRAW_FROM_POOL"),
            AzoolRequestType::ReqTypeDiscardFromFactory => String::from_str(
                "DISCARD_FROM_FACTORY",
            ),
            AzoolRequestType::ReqTypeDiscardFromPool => String::from_str("DISCARD_FROM_POOL"),
            AzoolRequestType::ReqTypeReturnToBag => String::from_str("RETURN_TO_BAG"),
            AzoolRequestType::ReqTypeGetBoard => String::from_str("GET_BOARD"),
            AzoolRequestType::ReqTypeBeginTurn => String::from_str("TAKE_TURN"),
            AzoolRequestType::ReqTypeTurnFinished => String::from_str("TURN_FINISHED"),
            AzoolRequestType::ReqTypeInvalid => String::from_str("INVALID"),
        }
    }

    /// Decodes a wire name; anything unrecognized is the invalid kind.
    pub fn from_string(val: &str) -> (r: Self)
        ensures
            r == spec_req_type_from_string(val@),
    {
        let owned = val.to_owned();
        if owned == String::from_str("DRAW_FROM_FACTORY") {
            AzoolRequestType::ReqTypeDrawFromFactory
        } else if owned == String::from_str("DRAW_FROM_POOL") {
            AzoolRequestType::ReqTypeDrawFromPool
        } else if owned == String::from_str("DISCARD_FROM_FACTORY") {
            AzoolRequestType::ReqTypeDiscardFromFactory
        } else if owned == String::from_str("DISCARD_FROM_POOL") {
            AzoolRequestType::ReqTypeDiscardFromPool
        } else if owned == String::from_str("RETURN_TO_BAG") {
            AzoolRequestType::ReqTypeReturnToBag
        } else if owned == String::from_str("GET_BOARD") {
            AzoolRequestType::ReqTypeGetBoard
        } else if owned == String::from_str("TAKE_TURN") {
            AzoolRequestType::ReqTypeBeginTurn
        } else if owned == String::from_str("TURN_FINISHED") {
            AzoolRequestType::ReqTypeTurnFinished
        } else {
            AzoolRequestType::ReqTypeInvalid
        }
    }
}

/// The wire name of each request kind.
pub open spec fn spec_req_type_string(t: AzoolRequestType) -> Seq<char> {
    match t {
        AzoolRequestType::ReqTypeDrawFromFactory => "DRAW_FROM_FACTORY"@,
        AzoolRequestType::ReqTypeDrawFromPool => "DRAW_FROM_POOL"@,
        AzoolRequestType::ReqTypeDiscardFromFactory => "DISCARD_FROM_FACTORY"@,
        AzoolRequestType::ReqTypeDiscardFromPool => "DISCARD_FROM_POOL"@,
        AzoolRequestType::ReqTypeReturnToBag => "RETURN_TO_BAG"@,
        AzoolRequestType::ReqTypeGetBoard => "GET_BOARD"@,
        AzoolRequestType::ReqTypeBeginTurn => "TAKE_TURN"@,
        AzoolRequestType::ReqTypeTurnFinished => "TURN_FINISHED"@,
        AzoolRequestType::ReqTypeInvalid => "INVALID"@,
    }
}

/// The request kind a wire name denotes; an unrecognized name is the
/// invalid kind.
pub open spec fn spec_req_type_from_string(s: Seq<char>) -> AzoolRequestType {
    if s == "DRAW_FROM_FACTORY"@ {
        AzoolRequestType::ReqTypeDrawFromFactory
    } else if s == "DRAW_FROM_POOL"@ {
        AzoolRequestType::ReqTypeDrawFromPool
    } else if s == "DISCARD_FROM_FACTORY"@ {
        AzoolRequestType::ReqTypeDiscardFromFactory
    } else if s == "DISCARD_FROM_POOL"@ {
        AzoolRequestType::ReqTypeDiscardFromPool
    } else if s == "RETURN_TO_BAG"@ {
        AzoolRequestType::ReqTypeReturnToBag
    } else if s == "GET_BOARD"@ {
        AzoolRequestType::ReqTypeGetBoard
    } else if s == "TAKE_TURN"@ {
        AzoolRequestType::ReqTypeBeginTurn
    } else if s == "TURN_FINISHED"@ {
        AzoolRequestType::ReqTypeTurnFinished
    } else {
        AzoolRequestType::ReqTypeInvalid
    }
}

/// A request sent to the arbiter, each variant carrying only its required
/// fields; a structurally incomplete message is the `Invalid` variant.
#[derive(Clone, Copy, Debug, PartialEq, Eq, Structural)]
pub enum AzoolRequest {
    /// Draw every tile of one color from one display.
    DrawFromFactory { current_player: u8, factory_idx: usize, tile_color: TileColor },
    /// Draw every tile of one color from the shared pool.
    DrawFromPool { current_player: u8, tile_color: TileColor },
    /// Discard every tile of one color from one display.
    DiscardFromFactory { current_player: u8, factory_idx: usize, tile_color: TileColor },
    /// Discard every tile of one color from the shared pool.
    DiscardFromPool { current_player: u8, tile_color: TileColor },
    /// Return discarded tiles to the bag.
    ReturnToBag { current_player: u8, tile_color: TileColor, num_tiles_returned: usize },
    /// Request a snapshot of the shared board state.
    GetBoard { current_player: u8 },
    /// Grants the turn; sent by the arbiter, never accepted by it.
    BeginTurn { current_player: u8 },
    /// Ends the sender's turn; handled by the turn loop, not the board.
    TurnFinished { current_player: u8 },
    /// An unrecognized or structurally incomplete message.
    Invalid,
}

/// A snapshot of the shared board state, for rendering and turn decisions.
#[derive(Debug)]
pub struct BoardView {
    /// Count per color encoding, one five-entry row per remaining display.
    pub factories: Vec<Vec<usize>>,
    pub num_factories: usize,
    /// Count per color encoding in the shared pool.
    pub pool: Vec<usize>,
    pub num_tiles_in_pool: usize,
    pub end_of_round: bool,
    pub white_tile_in_pool: bool,
}

/// The arbiter's reply to a request. Invalid moves are reported in-band
/// with `success == false`; only malformed messages fail out-of-band.
#[derive(Debug)]
pub enum AzoolResponse {
    /// Reply to a factory draw or discard.
    Draw { current_player: u8, success: bool, num_tiles_returned: usize },
    /// Reply to a pool draw or discard; reports the one-time marker penalty.
    PoolDraw { current_player: u8, success: bool, num_tiles_returned: usize, pool_penalty: bool },
    /// Acknowledges a return of tiles to the bag.
    ReturnAck { current_player: u8, success: bool },
    /// The board snapshot, echoing the requester's id unchanged.
    Board { current_player: u8, view: BoardView },
}

} // verus!
