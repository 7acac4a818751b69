//! The sprites of the dinosaur game, one character to a braille dot: `#`
//! is ink, `.` is empty.

use vstd::prelude::*;

verus! {

/// Running, one foot up. The T-Rex of the offline page taken block by block
/// (its pixel art is drawn in 2×2 blocks, one block to a braille dot):
/// square head, one-dot eye, notched jaw, thin raised tail, small arms.
pub const RUN_A: [&'static str; 24] = [
    "............#########.",
    "...........##.########",
    "...........###########",
    "...........###########",
    "...........###########",
    "...........###########",
    "...........#####......",
    "...........########...",
    "#.........#####.......",
    "#.........#####.......",
    "#.......#######.......",
    "##.....##########.....",
    "###...#########.#.....",
    "###############.......",
    "###############.......",
    ".##############.......",
    "..############........",
    ".....########.........",
    ".....#######..........",
    ".....####.##..........",
    ".....####.###.........",
    ".....###..............",
    ".....#................",
    ".....###..............",
];

/// Running, the other foot up.
pub const RUN_B: [&'static str; 24] = [
    "............#########.",
    "...........##.########",
    "...........###########",
    "...........###########",
    "...........###########",
    "...........###########",
    "...........#####......",
    "...........########...",
    "#.........#####.......",
    "#.........#####.......",
    "#.......#######.......",
    "##.....##########.....",
    "###...#########.#.....",
    "###############.......",
    "###############.......",
    ".##############.......",
    "..############........",
    ".....########.........",
    ".....#######..........",
    ".....####.##..........",
    ".....####.##..........",
    "......###..#..........",
    "...........#..........",
    "...........##.........",
];

/// Ducking: body low and long, head level with the back, tail still raised.
pub const DUCK: [&'static str; 13] = [
    "#...................########.",
    "###....#########...##########",
    "#####################.#######",
    ".############################",
    "..###########################",
    "...##########################",
    "....####################.....",
    ".....############...#######..",
    "......###########............",
    "......###......#.............",
    "......###......##............",
    "......##.....................",
    "......###....................",
];

/// Crashed: the eye grown into a ring with a dot, both feet down.
pub const CRASH: [&'static str; 24] = [
    "............#########.",
    "...........#...#######",
    "...........#.#.#######",
    "...........#...#######",
    "...........###########",
    "...........###########",
    "...........#####......",
    "...........########...",
    "#.........#####.......",
    "#.........#####.......",
    "#.......#######.......",
    "##.....##########.....",
    "###...#########.#.....",
    "###############.......",
    "###############.......",
    ".##############.......",
    "..############........",
    ".....########.........",
    ".....#######..........",
    ".....####.##..........",
    ".....####.##..........",
    ".....###...#..........",
    ".....#.....#..........",
    ".....###...##.........",
];

/// A small cactus: a stem three blocks wide, two arms at different heights.
pub const CACTUS_S: [&'static str; 18] = [
    "....#....",
    "...###...",
    "...###...",
    "...###..#",
    "#..###..#",
    "#..###..#",
    "#..###..#",
    "#..###..#",
    "##.###.##",
    ".#######.",
    "..#####..",
    "...###...",
    "...###...",
    "...###...",
    "...###...",
    "...###...",
    "...###...",
    "...###...",
];

/// A large cactus, taller than the dinosaur.
pub const CACTUS_L: [&'static str; 25] = [
    ".....###.....",
    "....#####....",
    "....#####....",
    "....#####....",
    "....#####....",
    "#...#####....",
    "##..#####..##",
    "##..#####..##",
    "##..#####..##",
    "##..#####..##",
    "##..#####..##",
    "##..#####..##",
    "##..#####..##",
    "###.#####.###",
    ".#########.#.",
    "..#########..",
    "...#######...",
    "....#####....",
    "....#####....",
    "....#####....",
    "....#####....",
    "....#####....",
    "....#####....",
    "....#####....",
    "....#####....",
];

/// A pterodactyl, wings up; the beak points left, at the dinosaur.
pub const BIRD_UP: [&'static str; 20] = [
    "..........##...........",
    ".........###...........",
    "........####...........",
    ".......#####...........",
    "......######...........",
    ".....#######...........",
    "....########...........",
    "...#########...........",
    "..##########...........",
    "###############........",
    "##################.....",
    ".######################",
    "...######.###########..",
    "......####.............",
    "......###..............",
    ".......##..............",
    ".......................",
    ".......................",
    ".......................",
    ".......................",
];

/// A pterodactyl, wings down.
pub const BIRD_DOWN: [&'static str; 20] = [
    ".......................",
    ".......................",
    ".......................",
    ".......................",
    ".......................",
    ".......................",
    ".......................",
    "......##...............",
    "......###..............",
    "###############........",
    "##################.....",
    ".######################",
    "..###########.#######..",
    "..###########..........",
    "...##########..........",
    "....#########..........",
    ".....########..........",
    "......#######..........",
    ".......######..........",
    "........#####..........",
];

} // verus!
