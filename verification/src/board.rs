//! The chess board of the browser client: how its squares are named and
//! shaded, what a click on a square selects, and where the pieces of a
//! position stand.

use vstd::prelude::*;
use vstd::string::*;

verus! {

/// How a square of the board is shaded.
#[derive(Debug, Clone, Copy, PartialEq, Eq, Structural)]
pub enum Shade {
    /// The square that the player has selected.
    Selected,
    /// A dark square.
    Dark,
    /// A light square.
    Light,
}

/// The letter of a file, `a` for file 0.
pub open spec fn file_letter(file: u8) -> char {
    ('a' as u8 + file) as char
}

/// The digit of a rank, `1` for rank 0.
pub open spec fn rank_digit(rank: u8) -> char {
    ('1' as u8 + rank) as char
}

/// `String::push`: appends one character to the text.
#[verifier::external_body]
fn push_char(text: &mut String, c: char)
    ensures
        final(text)@ == old(text)@.push(c),
{
    text.push(c)
}

/// Whether the square at `file` and `rank`, both counted from 0, is dark.
pub fn is_dark_square(file: u8, rank: u8) -> (dark: bool)
    ensures
        dark == ((rank + file) % 2 == 1),
{
    (rank as u16 + file as u16) % 2 == 1
}

/// The shade of a square: the selected square stands out, whatever its
/// colour.
pub fn square_shade(selected: bool, dark: bool) -> (shade: Shade)
    ensures
        shade == if selected {
            Shade::Selected
        } else if dark {
            Shade::Dark
        } else {
            Shade::Light
        },
{
    if selected {
        Shade::Selected
    } else if dark {
        Shade::Dark
    } else {
        Shade::Light
    }
}

/// The name of the square at `file` and `rank`, both counted from 0: the
/// file's letter and the rank's digit, as in `e2`. `None` off the board.
pub fn square_name(file: u8, rank: u8) -> (name: Option<String>)
    ensures
        name is Some <==> file < 8 && rank < 8,
        name matches Some(text) ==> text@ == seq![file_letter(file), rank_digit(rank)],
{
    if file < 8 && rank < 8 {
        let mut text = String::new();
        push_char(&mut text, (97u8 + file) as char);
        push_char(&mut text, (49u8 + rank) as char);
        assert(text@ =~= seq![file_letter(file), rank_digit(rank)]);
        Some(text)
    } else {
        None
    }
}

/// The move that a click on `square` proposes: from the selected square to
/// the clicked one. `None` while no square is selected.
pub fn proposed_move(selected: &Option<String>, square: &str) -> (proposed: Option<String>)
    ensures
        match proposed {
            Some(text) => selected matches Some(from) && text@ == from@ + square@,
            None => selected is None,
        },
{
    match selected {
        Some(from) => Some(from.clone().concat(square)),
        None => None,
    }
}

/// The selection after a click on `square`. `accepted` says whether the
/// proposed move was legal. An accepted move clears the selection; in every
/// other case the clicked square is selected. Returns whether the move is to
/// be sent to the server.
pub fn settle_click(selected: &mut Option<String>, square: String, accepted: bool) -> (send: bool)
    ensures
        send == (*old(selected) is Some && accepted),
        match *final(selected) {
            Some(text) => !send && text@ == square@,
            None => send,
        },
{
    if selected.is_some() && accepted {
        *selected = None;
        true
    } else {
        *selected = Some(square);
        false
    }
}

/// The kinds of chess pieces.
#[derive(Debug, Clone, Copy, PartialEq, Eq, Structural)]
pub enum PieceKind {
    Pawn,
    Knight,
    Bishop,
    Rook,
    Queen,
    King,
}

/// A piece on the board: the rank and file at which a position places it,
/// counted from 0 in reading order, its kind and its colour.
#[derive(Debug, Clone, Copy, PartialEq, Eq, Structural)]
pub struct Placement {
    pub rank: usize,
    pub file: usize,
    pub kind: PieceKind,
    pub white: bool,
}

/// The characters that `char::to_lowercase` yields for a character.
pub uninterp spec fn lowercase_mapping(c: char) -> Seq<char>;

/// What `char::is_uppercase` says of a character.
pub uninterp spec fn unicode_uppercase(c: char) -> bool;

/// Lower-cases a character with `char::to_lowercase` and collects what it
/// yields. The contract names the result and claims of it what the
/// documentation says: it is one or more characters.
#[verifier::external_body]
fn lowercase_of(c: char) -> (lower: Vec<char>)
    ensures
        lower@ == lowercase_mapping(c),
        lower@.len() >= 1,
{
    c.to_lowercase().collect()
}

/// `char::is_uppercase`. The contract names the result and claims nothing
/// more of it.
#[verifier::external_body]
fn is_uppercase(c: char) -> (upper: bool)
    ensures
        upper == unicode_uppercase(c),
{
    c.is_uppercase()
}

/// Whether the character is one of the digits `0` to `9`.
pub open spec fn is_decimal_digit(c: char) -> bool {
    '0' <= c <= '9'
}

/// The value of a decimal digit.
pub open spec fn digit_value(c: char) -> nat {
    (c as u32 - '0' as u32) as nat
}

/// The kind of piece that a lower-case letter stands for.
pub open spec fn kind_of_letter(lower: char) -> Option<PieceKind> {
    if lower == 'p' {
        Some(PieceKind::Pawn)
    } else if lower == 'n' {
        Some(PieceKind::Knight)
    } else if lower == 'b' {
        Some(PieceKind::Bishop)
    } else if lower == 'r' {
        Some(PieceKind::Rook)
    } else if lower == 'q' {
        Some(PieceKind::Queen)
    } else if lower == 'k' {
        Some(PieceKind::King)
    } else {
        None
    }
}

/// Where the reading of a position stands: the rank and file of the next
/// piece, and the pieces read so far.
pub struct Reading {
    pub rank: nat,
    pub file: nat,
    pub pieces: Seq<Placement>,
}

/// The reading after one more character: a slash begins the next rank, a
/// digit skips that many files, a piece letter places a piece and moves on
/// by one file, any other character is passed over. A character is a piece
/// letter if its lower-case form begins with one of `p n b r q k`, and the
/// piece is white if the character is upper case.
pub open spec fn read_char(before: Reading, c: char) -> Reading {
    if c == '/' {
        Reading { rank: before.rank + 1, file: 0, pieces: before.pieces }
    } else if is_decimal_digit(c) {
        Reading { file: before.file + digit_value(c), ..before }
    } else {
        match kind_of_letter(lowercase_mapping(c)[0]) {
            Some(kind) => Reading {
                file: before.file + 1,
                pieces: before.pieces.push(
                    Placement {
                        rank: before.rank as usize,
                        file: before.file as usize,
                        kind,
                        white: unicode_uppercase(c),
                    },
                ),
                ..before
            },
            None => before,
        }
    }
}

/// The reading after the first `n` characters of a position.
pub open spec fn read_prefix(fen: Seq<char>, n: nat) -> Reading
    decreases n,
{
    if n == 0 {
        Reading { rank: 0, file: 0, pieces: Seq::empty() }
    } else {
        read_char(read_prefix(fen, (n - 1) as nat), fen[n - 1])
    }
}

/// The pieces that a position in Forsyth-Edwards notation places on the
/// board, in reading order.
pub open spec fn placements_of(fen: Seq<char>) -> Seq<Placement> {
    read_prefix(fen, fen.len()).pieces
}

/// The kind of piece that a lower-case letter stands for, if any.
pub fn piece_kind(lower: char) -> (kind: Option<PieceKind>)
    ensures
        kind == kind_of_letter(lower),
{
    if lower == 'p' {
        Some(PieceKind::Pawn)
    } else if lower == 'n' {
        Some(PieceKind::Knight)
    } else if lower == 'b' {
        Some(PieceKind::Bishop)
    } else if lower == 'r' {
        Some(PieceKind::Rook)
    } else if lower == 'q' {
        Some(PieceKind::Queen)
    } else if lower == 'k' {
        Some(PieceKind::King)
    } else {
        None
    }
}

/// Reads the pieces of a position in Forsyth-Edwards notation, in reading
/// order. The text must be short enough for its file counts to fit the
/// machine's integers.
pub fn placements(fen: &str) -> (pieces: Vec<Placement>)
    requires
        fen@.len() * 9 <= usize::MAX,
    ensures
        pieces@ == placements_of(fen@),
{
    let length = fen.unicode_len();
    let mut pieces: Vec<Placement> = Vec::new();
    let mut rank: usize = 0;
    let mut file: usize = 0;
    let mut i: usize = 0;
    while i < length
        invariant
            i <= length,
            length == fen@.len(),
            fen@.len() * 9 <= usize::MAX,
            rank <= i,
            file <= 9 * i,
            read_prefix(fen@, i as nat) == (Reading {
                rank: rank as nat,
                file: file as nat,
                pieces: pieces@,
            }),
        decreases length - i,
    {
        let c = fen.get_char(i);
        if c == '/' {
            rank += 1;
            file = 0;
        } else if '0' <= c && c <= '9' {
            file += (c as u32 - '0' as u32) as usize;
        } else {
            let lower = lowercase_of(c);
            match piece_kind(lower[0]) {
                Some(kind) => {
                    pieces.push(Placement { rank, file, kind, white: is_uppercase(c) });
                    file += 1;
                },
                None => {},
            }
        }
        i += 1;
    }
    pieces
}

} // verus!
