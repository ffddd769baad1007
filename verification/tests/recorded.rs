use minesweeper::{CellFace, GameState, RevealOutcome};

/// A move of a recorded game: a reveal (`true`) or a flag toggle (`false`)
/// at a row and a column.
type Step = (bool, usize, usize);

/// One character per cell: a digit or `*` for a revealed cell, `F` for a
/// flag, `#` for a covered cell.
fn picture(game: &GameState) -> Vec<String> {
    let size = game.size();
    let mut rows = Vec::new();
    for r in 0..size {
        let mut row = String::new();
        for c in 0..size {
            let ch = match game.cell(r, c).expect("inside the grid").face() {
                CellFace::Covered => '#',
                CellFace::Flag => 'F',
                CellFace::Mine => '*',
                CellFace::Number(n) => (b'0' + n) as char,
                CellFace::Blank => '0',
            };
            row.push(ch);
        }
        rows.push(row);
    }
    rows
}

/// Plays the steps on a board with the given mines and returns the game.
fn play(size: usize, mines: &[(usize, usize)], steps: &[Step]) -> GameState {
    let mut game = GameState::from_mines(size, &mines.to_vec()).expect("a valid layout");
    for &(reveal, r, c) in steps {
        if reveal {
            game.reveal_cell(r, c);
        } else {
            game.toggle_flag(r, c);
        }
    }
    game
}

#[test]
fn first_recorded_game() {
    let mines = [(2, 3), (3, 2), (3, 3)];
    let steps = [
        (true, 4, 3),
        (false, 1, 4),
        (true, 1, 2),
        (false, 2, 0),
        (false, 4, 3),
        (false, 4, 3),
        (true, 2, 4),
        (true, 1, 0),
        (true, 0, 3),
        (true, 1, 2),
        (true, 3, 0),
        (true, 1, 2),
    ];
    let game = play(5, &mines, &steps);
    assert_eq!(
        picture(&game),
        vec![
            "00000",
            "00111",
            "013#2",
            "01###",
            "01#2#",
        ]
    );
    assert_eq!(game.status(), RevealOutcome::Continue);
    assert_eq!(game.unrevealed_safe_count(), 3);
}

#[test]
fn second_recorded_game() {
    let mines = [(1, 0), (2, 1), (4, 4), (4, 5), (5, 2)];
    let steps = [
        (true, 2, 4),
        (true, 5, 5),
        (false, 3, 4),
        (false, 5, 5),
        (true, 3, 4),
        (true, 3, 3),
        (true, 3, 0),
        (true, 0, 3),
        (true, 0, 0),
        (false, 1, 3),
        (true, 5, 4),
        (false, 5, 5),
        (false, 5, 4),
        (false, 1, 0),
        (true, 5, 4),
    ];
    let game = play(6, &mines, &steps);
    assert_eq!(
        picture(&game),
        vec![
            "110000",
            "F21000",
            "##1000",
            "1#1122",
            "######",
            "####22",
        ]
    );
    assert_eq!(game.status(), RevealOutcome::Continue);
    assert_eq!(game.unrevealed_safe_count(), 9);
}

#[test]
fn third_recorded_game() {
    let mines = [(1, 3), (1, 4), (4, 2), (5, 0), (5, 3), (5, 4)];
    let steps = [
        (true, 2, 3),
        (true, 2, 4),
        (true, 3, 6),
        (false, 1, 4),
        (false, 3, 6),
        (false, 3, 6),
        (true, 5, 6),
        (true, 2, 1),
        (false, 5, 4),
        (true, 4, 0),
        (true, 0, 4),
        (true, 5, 1),
        (false, 6, 1),
        (false, 1, 3),
        (true, 4, 0),
        (true, 4, 0),
        (false, 1, 0),
        (false, 2, 1),
        (false, 1, 3),
        (false, 5, 1),
        (true, 2, 3),
        (false, 5, 4),
        (true, 3, 0),
        (true, 3, 1),
        (false, 3, 1),
    ];
    let game = play(7, &mines, &steps);
    assert_eq!(
        picture(&game),
        vec![
            "001#210",
            "001#F10",
            "0012210",
            "0111000",
            "12#3210",
            "#2###10",
            "#F###10",
        ]
    );
    assert_eq!(game.status(), RevealOutcome::Continue);
    assert_eq!(game.unrevealed_safe_count(), 7);
}

#[test]
fn fourth_recorded_game() {
    let mines = [(0, 0), (0, 4), (0, 6), (1, 7), (4, 4), (4, 6), (5, 2), (5, 5), (6, 0), (6, 7)];
    let steps = [
        (true, 4, 7),
        (false, 2, 4),
        (false, 6, 6),
        (false, 5, 6),
        (false, 2, 6),
        (false, 0, 7),
        (true, 4, 1),
        (false, 4, 7),
        (false, 0, 5),
        (false, 0, 0),
        (false, 6, 3),
        (false, 0, 1),
        (true, 2, 2),
        (true, 2, 3),
        (true, 3, 5),
        (true, 1, 1),
        (true, 1, 4),
        (true, 2, 0),
        (true, 4, 2),
        (false, 2, 4),
        (true, 6, 3),
        (false, 7, 5),
        (true, 2, 6),
        (false, 1, 7),
        (true, 3, 5),
        (true, 5, 7),
        (true, 1, 5),
        (true, 3, 2),
        (false, 6, 1),
        (false, 5, 3),
    ];
    let game = play(8, &mines, &steps);
    assert_eq!(
        picture(&game),
        vec![
            "F101#F#F",
            "1101122F",
            "0000001#",
            "0001121#",
            "0112###1",
            "12#F##F2",
            "#F#F##F#",
            "#####F##",
        ]
    );
    assert_eq!(game.status(), RevealOutcome::Continue);
    assert_eq!(game.unrevealed_safe_count(), 22);
}

#[test]
fn fifth_recorded_game() {
    let mines = [(1, 1), (1, 7), (5, 0), (5, 8), (6, 4), (6, 7), (7, 2), (7, 3), (7, 7), (8, 2), (8, 6), (8, 8)];
    let steps = [
        (true, 3, 4),
        (false, 5, 5),
        (false, 1, 1),
        (true, 3, 6),
        (true, 7, 6),
        (false, 1, 1),
        (true, 3, 1),
        (true, 7, 6),
        (false, 3, 0),
        (true, 4, 6),
        (false, 1, 7),
        (true, 4, 4),
        (true, 8, 0),
        (true, 0, 1),
        (true, 7, 6),
        (true, 0, 2),
        (false, 6, 0),
        (false, 1, 1),
        (false, 8, 8),
        (false, 3, 3),
        (false, 1, 3),
        (true, 1, 0),
        (false, 8, 1),
        (true, 0, 7),
        (false, 2, 8),
        (false, 4, 8),
        (false, 1, 0),
        (true, 4, 5),
        (false, 2, 5),
        (false, 0, 6),
        (false, 6, 7),
        (false, 1, 5),
        (false, 8, 2),
        (true, 0, 6),
        (true, 4, 7),
        (true, 7, 4),
        (false, 3, 7),
        (true, 3, 1),
        (false, 2, 5),
        (false, 5, 7),
    ];
    let game = play(9, &mines, &steps);
    assert_eq!(
        picture(&game),
        vec![
            "#1100011#",
            "1F10001F#",
            "111000111",
            "000000000",
            "110000011",
            "#1011112#",
            "1223###F#",
            "02##2#3##",
            "02F#####F",
        ]
    );
    assert_eq!(game.status(), RevealOutcome::Continue);
    assert_eq!(game.unrevealed_safe_count(), 12);
}

#[test]
fn sixth_recorded_game() {
    let mines = [(0, 0), (0, 4), (1, 0), (1, 2), (2, 5), (2, 8), (3, 1), (3, 6), (4, 3), (5, 3), (5, 7), (5, 8), (6, 2), (9, 2), (9, 9)];
    let steps = [
        (true, 2, 9),
        (false, 6, 7),
        (true, 1, 7),
        (true, 1, 8),
        (true, 1, 5),
        (true, 7, 3),
        (true, 0, 5),
        (false, 0, 4),
        (true, 8, 2),
        (true, 4, 8),
        (true, 1, 4),
        (true, 1, 9),
        (true, 1, 7),
        (false, 3, 9),
        (true, 2, 9),
        (true, 6, 7),
        (false, 2, 3),
        (true, 9, 9),
        (false, 2, 4),
        (true, 2, 9),
        (false, 2, 5),
        (true, 7, 6),
        (false, 3, 7),
        (false, 4, 2),
        (false, 2, 5),
        (true, 7, 6),
        (false, 3, 1),
        (true, 9, 5),
        (false, 6, 7),
        (false, 1, 8),
        (true, 0, 8),
        (false, 8, 7),
        (true, 5, 6),
        (false, 6, 2),
        (false, 4, 1),
        (false, 1, 7),
        (false, 9, 2),
        (true, 3, 8),
        (false, 9, 4),
        (false, 9, 0),
        (false, 5, 3),
        (false, 8, 3),
        (true, 0, 3),
        (false, 9, 9),
        (false, 9, 9),
        (false, 5, 3),
        (false, 1, 0),
        (false, 2, 9),
        (true, 7, 4),
        (false, 0, 9),
        (true, 3, 0),
        (true, 6, 6),
        (false, 3, 9),
        (false, 9, 3),
        (false, 0, 3),
        (true, 3, 5),
        (true, 6, 2),
        (true, 3, 7),
        (false, 3, 0),
        (false, 3, 5),
    ];
    let game = play(10, &mines, &steps);
    assert_eq!(
        picture(&game),
        vec![
            "####F10000",
            "####221111",
            "###F#####1",
            "#########F",
            "########2#",
            "##########",
            "#######F##",
            "###1######",
            "##1#######",
            "#########*",
        ]
    );
    assert_eq!(game.status(), RevealOutcome::Loss);
    assert_eq!(game.unrevealed_safe_count(), 70);
}

#[test]
fn seventh_recorded_game() {
    let mines = [(0, 2), (5, 0)];
    let steps = [
        (false, 5, 4),
        (false, 4, 3),
        (true, 3, 1),
        (true, 3, 5),
        (false, 5, 0),
        (false, 0, 0),
        (false, 2, 4),
        (true, 1, 4),
        (true, 2, 5),
        (true, 1, 3),
    ];
    let game = play(6, &mines, &steps);
    assert_eq!(
        picture(&game),
        vec![
            "01#100",
            "011100",
            "000000",
            "000000",
            "110000",
            "F10000",
        ]
    );
    assert_eq!(game.status(), RevealOutcome::Continue);
    assert_eq!(game.unrevealed_safe_count(), 0);
}

#[test]
fn eighth_recorded_game() {
    let mines = [(0, 1), (0, 5), (1, 0), (1, 4), (1, 5), (2, 0), (2, 5), (3, 2), (3, 4), (3, 6), (4, 2), (4, 4), (4, 6), (5, 1), (5, 3), (5, 5), (6, 0), (6, 1), (6, 2), (6, 4)];
    let steps = [
        (true, 1, 2),
        (false, 1, 1),
        (false, 2, 2),
        (false, 1, 3),
        (false, 6, 0),
        (true, 2, 2),
        (false, 4, 1),
        (false, 2, 4),
        (false, 1, 6),
        (true, 4, 0),
        (false, 3, 6),
        (false, 4, 2),
        (false, 2, 2),
        (true, 4, 1),
        (false, 4, 3),
        (true, 0, 6),
        (true, 2, 4),
        (true, 2, 1),
        (false, 2, 6),
        (false, 3, 6),
        (false, 1, 4),
        (false, 4, 6),
        (false, 4, 1),
        (false, 3, 3),
        (false, 1, 2),
        (false, 3, 6),
        (true, 0, 3),
        (true, 1, 0),
        (true, 4, 0),
        (false, 0, 1),
    ];
    let game = play(7, &mines, &steps);
    assert_eq!(
        picture(&game),
        vec![
            "##11##2",
            "*F1FF#F",
            "#3##F#F",
            "###F##F",
            "1#FF##F",
            "#######",
            "F######",
        ]
    );
    assert_eq!(game.status(), RevealOutcome::Loss);
    assert_eq!(game.unrevealed_safe_count(), 23);
}

#[test]
fn ninth_recorded_game() {
    let mines = [(1, 3), (2, 2), (3, 4), (4, 0), (7, 0), (7, 7)];
    let steps = [
        (false, 2, 0),
        (true, 3, 5),
        (true, 5, 1),
        (false, 4, 3),
        (false, 7, 6),
        (true, 3, 1),
        (false, 5, 4),
        (true, 1, 0),
        (false, 6, 6),
        (true, 3, 0),
        (true, 3, 2),
        (false, 0, 0),
        (true, 0, 1),
        (true, 5, 5),
        (false, 1, 7),
        (false, 6, 3),
        (false, 2, 6),
        (true, 2, 0),
        (true, 0, 2),
        (true, 6, 7),
        (true, 0, 0),
        (false, 5, 7),
        (false, 4, 1),
        (false, 3, 4),
        (false, 4, 3),
        (false, 6, 2),
        (true, 3, 0),
        (true, 6, 7),
        (false, 1, 5),
        (true, 3, 3),
        (true, 5, 1),
        (false, 0, 7),
        (false, 5, 3),
        (false, 7, 7),
        (true, 6, 2),
        (true, 0, 4),
        (true, 7, 7),
        (false, 4, 5),
        (false, 2, 7),
        (true, 0, 6),
        (true, 0, 0),
        (false, 2, 7),
        (true, 1, 5),
        (false, 3, 6),
        (true, 2, 1),
        (false, 4, 0),
        (false, 7, 0),
        (true, 0, 0),
        (false, 7, 7),
        (true, 0, 3),
    ];
    let game = play(8, &mines, &steps);
    assert_eq!(
        picture(&game),
        vec![
            "00111000",
            "012#1000",
            "01##2100",
            "1212F100",
            "F10#1100",
            "#100F000",
            "#10000F1",
            "F10000F#",
        ]
    );
    assert_eq!(game.status(), RevealOutcome::Continue);
    assert_eq!(game.unrevealed_safe_count(), 7);
}

#[test]
fn tenth_recorded_game() {
    let mines = [(0, 3), (0, 9), (1, 2), (1, 6), (3, 8), (4, 1), (6, 1), (7, 4), (7, 9), (9, 2)];
    let steps = [
        (false, 3, 1),
        (false, 7, 1),
        (false, 8, 3),
        (true, 5, 5),
        (true, 3, 5),
        (false, 0, 8),
        (false, 8, 4),
        (true, 8, 8),
        (true, 9, 9),
        (false, 7, 9),
        (false, 9, 4),
        (true, 2, 8),
        (false, 4, 0),
        (false, 3, 7),
        (true, 1, 3),
        (false, 3, 1),
        (false, 3, 4),
        (true, 3, 4),
        (false, 3, 5),
        (true, 8, 9),
        (false, 0, 3),
        (false, 2, 7),
        (true, 1, 4),
        (true, 5, 6),
        (true, 1, 9),
        (true, 5, 0),
        (true, 9, 4),
        (false, 8, 7),
        (true, 9, 8),
        (false, 1, 1),
        (true, 8, 9),
        (true, 6, 6),
        (false, 1, 1),
        (false, 7, 3),
        (true, 9, 5),
        (true, 2, 0),
        (true, 0, 2),
        (true, 5, 2),
        (false, 8, 7),
        (true, 7, 7),
        (false, 4, 8),
        (true, 7, 3),
        (true, 6, 8),
        (false, 5, 9),
        (true, 1, 9),
        (true, 3, 5),
        (false, 3, 2),
        (false, 6, 2),
        (true, 2, 7),
        (true, 0, 2),
        (true, 7, 6),
        (false, 0, 7),
        (false, 0, 3),
        (true, 0, 7),
        (false, 3, 3),
        (false, 4, 1),
        (false, 1, 2),
        (false, 7, 9),
        (true, 3, 3),
        (true, 0, 1),
        (true, 7, 2),
        (false, 8, 5),
        (false, 8, 5),
        (false, 4, 2),
        (true, 0, 4),
        (true, 0, 4),
        (false, 0, 3),
        (false, 7, 5),
        (true, 2, 2),
        (false, 6, 2),
        (true, 6, 5),
        (true, 0, 0),
        (false, 5, 7),
        (true, 2, 2),
        (true, 8, 0),
        (false, 5, 2),
        (true, 2, 0),
        (true, 6, 8),
        (false, 2, 7),
        (true, 7, 5),
    ];
    let game = play(10, &mines, &steps);
    assert_eq!(
        picture(&game),
        vec![
            "012F1##FF#",
            "01F211###1",
            "011101121#",
            "11100001##",
            "FF10000111",
            "2#20000000",
            "##11110011",
            "1F1F#1001#",
            "01#F110011",
            "01#1000000",
        ]
    );
    assert_eq!(game.status(), RevealOutcome::Continue);
    assert_eq!(game.unrevealed_safe_count(), 15);
}

#[test]
fn eleventh_recorded_game() {
    let mines = [(0, 2)];
    let steps = [
        (false, 2, 1),
        (true, 0, 3),
        (true, 3, 1),
        (false, 2, 0),
        (false, 2, 3),
        (false, 1, 2),
    ];
    let game = play(4, &mines, &steps);
    assert_eq!(
        picture(&game),
        vec![
            "01#1",
            "0111",
            "0000",
            "0000",
        ]
    );
    assert_eq!(game.status(), RevealOutcome::Continue);
    assert_eq!(game.unrevealed_safe_count(), 0);
}

#[test]
fn twelfth_recorded_game() {
    let mines = [(0, 4), (0, 7), (1, 1), (1, 2), (1, 5), (1, 7), (2, 3), (2, 6), (2, 8), (3, 1), (3, 2), (3, 3), (3, 4), (3, 5), (3, 8), (4, 3), (4, 5), (4, 6), (5, 2), (5, 4), (5, 5), (6, 1), (6, 7), (7, 0), (7, 5), (7, 6), (7, 8), (8, 3), (8, 5), (8, 7)];
    let steps = [
        (false, 4, 0),
        (true, 6, 1),
        (false, 6, 0),
        (false, 1, 3),
        (true, 8, 7),
        (false, 2, 4),
        (false, 7, 1),
        (false, 3, 3),
        (true, 2, 5),
        (true, 1, 8),
        (true, 8, 1),
        (false, 1, 8),
        (false, 5, 6),
        (false, 4, 0),
        (true, 0, 1),
        (false, 6, 8),
        (true, 1, 7),
        (true, 7, 4),
        (true, 1, 4),
        (false, 5, 4),
        (true, 1, 4),
        (false, 7, 6),
        (true, 5, 8),
        (true, 4, 0),
        (false, 2, 4),
        (false, 5, 7),
        (false, 1, 5),
        (false, 1, 6),
        (true, 5, 8),
        (true, 2, 0),
        (false, 5, 5),
        (false, 7, 5),
        (true, 7, 4),
        (false, 8, 5),
        (true, 1, 3),
        (false, 7, 1),
        (true, 5, 7),
        (false, 5, 2),
        (true, 7, 7),
        (true, 8, 4),
    ];
    let game = play(9, &mines, &steps);
    assert_eq!(
        picture(&game),
        vec![
            "1########",
            "#########",
            "#########",
            "#########",
            "F########",
            "#########",
            "#*#######",
            "#########",
            "#########",
        ]
    );
    assert_eq!(game.status(), RevealOutcome::Loss);
    assert_eq!(game.unrevealed_safe_count(), 50);
}
