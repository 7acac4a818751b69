//! The mascots: a fox and a deer, drawn as pixel silhouettes in quadrant
//! block characters, with a pose that reports how the machine is doing.
//!
//! | pose      | meaning           | when                  |
//! |-----------|-------------------|-----------------------|
//! | `observe` | quietly watching  | all is well           |
//! | `explore` | walking, curious  | busy but healthy      |
//! | `proceed` | head down, focused| under heavy load      |
//! | `rest`    | lying down        | the machine is idle   |
//! | `return`  | looking back      | just recovered        |

use vstd::prelude::*;
use crate::chars::{lemma_norm_of_word, normalized, same_chars, small_word, spec_norm, spec_upper, push_char, string_of, trail_end, trim_end_chars, chars_of};
use crate::visual::motif::lcg_state;

verus! {

/// The kind of mascot.
#[derive(Clone, Copy, Debug, PartialEq, Eq)]
pub enum Species {
    Fox,
    Deer,
}

impl Species {
    /// Reads a species from a setting (trimmed, any ASCII case).
    pub fn parse(s: &str) -> (r: Option<Species>)
        ensures
            r == if spec_norm(s@) == "fox"@ {
                Some(Species::Fox)
            } else if spec_norm(s@) == "deer"@ {
                Some(Species::Deer)
            } else {
                None::<Species>
            },
    {
        let n = normalized(s);
        if same_chars(n.as_slice(), "fox") {
            Some(Species::Fox)
        } else if same_chars(n.as_slice(), "deer") {
            Some(Species::Deer)
        } else {
            None
        }
    }

    /// The name shown on the mascot card.
    pub fn name(self) -> (r: &'static str)
        ensures
            r@ == match self {
                Species::Fox => "FOX"@,
                Species::Deer => "DEER"@,
            },
    {
        match self {
            Species::Fox => "FOX",
            Species::Deer => "DEER",
        }
    }
}

/// A pose.
#[derive(Clone, Copy, Debug, PartialEq, Eq)]
pub enum State {
    Observe,
    Explore,
    Proceed,
    Rest,
    Return,
}

/// The pose names a configuration may use.
pub const STATE_NAMES: [&'static str; 5] = ["observe", "explore", "proceed", "rest", "return"];

impl State {
    /// Every pose.
    pub const ALL: [State; 5] = [State::Observe, State::Explore, State::Proceed, State::Rest, State::Return];

    /// Reads a pose from a setting (trimmed, any ASCII case).
    pub fn parse(s: &str) -> (r: Option<State>)
        ensures
            r == if spec_norm(s@) == "observe"@ {
                Some(State::Observe)
            } else if spec_norm(s@) == "explore"@ {
                Some(State::Explore)
            } else if spec_norm(s@) == "proceed"@ {
                Some(State::Proceed)
            } else if spec_norm(s@) == "rest"@ {
                Some(State::Rest)
            } else if spec_norm(s@) == "return"@ {
                Some(State::Return)
            } else {
                None::<State>
            },
    {
        let n = normalized(s);
        if same_chars(n.as_slice(), "observe") {
            Some(State::Observe)
        } else if same_chars(n.as_slice(), "explore") {
            Some(State::Explore)
        } else if same_chars(n.as_slice(), "proceed") {
            Some(State::Proceed)
        } else if same_chars(n.as_slice(), "rest") {
            Some(State::Rest)
        } else if same_chars(n.as_slice(), "return") {
            Some(State::Return)
        } else {
            None
        }
    }

    /// The pose's name in capitals.
    pub fn name(self) -> (r: &'static str)
        ensures
            r@ == spec_state_name(self),
    {
        match self {
            State::Observe => "OBSERVE",
            State::Explore => "EXPLORE",
            State::Proceed => "PROCEED",
            State::Rest => "REST",
            State::Return => "RETURN",
        }
    }

    /// The pose's two-line caption.
    pub fn caption(self) -> (r: (&'static str, &'static str))
        ensures
            (r.0@, r.1@) == match self {
                State::Observe => ("QUIET AWARENESS"@, "EVERYTHING LEAVES A TRACE."@),
                State::Explore => ("STEADY CURIOSITY"@, "FURTHER IS A KIND OF HOME."@),
                State::Proceed => ("FOCUSED MOVEMENT"@, "SMALL STEPS. BIGGER PATHS."@),
                State::Rest => ("STILL PRESENCE"@, "A CALMER MIND EXPLORES MORE."@),
                State::Return => ("ALWAYS A WAY BACK"@, "SOME PLACES STAY WITH YOU."@),
            },
    {
        match self {
            State::Observe => ("QUIET AWARENESS", "EVERYTHING LEAVES A TRACE."),
            State::Explore => ("STEADY CURIOSITY", "FURTHER IS A KIND OF HOME."),
            State::Proceed => ("FOCUSED MOVEMENT", "SMALL STEPS. BIGGER PATHS."),
            State::Rest => ("STILL PRESENCE", "A CALMER MIND EXPLORES MORE."),
            State::Return => ("ALWAYS A WAY BACK", "SOME PLACES STAY WITH YOU."),
        }
    }
}

/// How the machine feels, boiled down to a handful of cases so that the
/// decoration never reads the collectors itself.
#[derive(Clone, Copy, Debug, PartialEq, Eq)]
pub enum Mood {
    /// Almost nothing to do.
    Idle,
    /// Running normally.
    Calm,
    /// Busy but healthy.
    Busy,
    /// Something is tight.
    Strained,
    /// Just recovered from being tight.
    Recovering,
}

impl Mood {
    /// The pose that reports this mood.
    pub fn state(self) -> (r: State)
        ensures
            r == mood_pose(self),
    {
        match self {
            Mood::Idle => State::Rest,
            Mood::Calm => State::Observe,
            Mood::Busy => State::Explore,
            Mood::Strained => State::Proceed,
            Mood::Recovering => State::Return,
        }
    }
}

/// The pose that reports a mood: idle rests, calm observes, busy
/// explores, strained proceeds, recovering returns.
pub open spec fn mood_pose(m: Mood) -> State {
    match m {
        Mood::Idle => State::Rest,
        Mood::Calm => State::Observe,
        Mood::Busy => State::Explore,
        Mood::Strained => State::Proceed,
        Mood::Recovering => State::Return,
    }
}

/// Which mascot and pose to draw now, or `None` for none.
///
/// The species is fixed by the setting (`auto` is the fox: changing
/// species with the load would be unpredictable); the pose follows the
/// mode: `manual` pins it (an unknown name falls back to `observe`),
/// `idle` shows the resting mascot only while the machine is idle, and
/// anything else follows the mood.
pub fn choose_pose(species_setting: &str, mode: &str, manual_state: &str, mood: Mood, idle: bool)
    -> (r: Option<(Species, State)>)
    ensures
        r == if species_setting@ == "none"@ {
            None::<(Species, State)>
        } else {
            let sp = if species_setting@ == "fox"@ {
                Species::Fox
            } else if species_setting@ == "deer"@ {
                Species::Deer
            } else {
                Species::Fox
            };
            if mode@ == "manual"@ {
                Some((sp, match spec_parse_state(manual_state@) { Some(s) => s, None => State::Observe }))
            } else if mode@ == "idle"@ {
                if idle { Some((sp, State::Rest)) } else { None::<(Species, State)> }
            } else {
                Some((sp, mood_pose(mood)))
            }
        },
{
    let sp_chars = crate::chars::chars_of(species_setting);
    if same_chars(sp_chars.as_slice(), "none") {
        return None;
    }
    let species = if same_chars(sp_chars.as_slice(), "fox") {
        Species::Fox
    } else if same_chars(sp_chars.as_slice(), "deer") {
        Species::Deer
    } else {
        Species::Fox
    };
    let mode_chars = crate::chars::chars_of(mode);
    let state = if same_chars(mode_chars.as_slice(), "manual") {
        match State::parse(manual_state) {
            Some(s) => s,
            None => State::Observe,
        }
    } else if same_chars(mode_chars.as_slice(), "idle") {
        if !idle {
            return None;
        }
        State::Rest
    } else {
        mood.state()
    };
    Some((species, state))
}

/// What [`State::parse`] gives.
pub open spec fn spec_parse_state(s: Seq<char>) -> Option<State> {
    if spec_norm(s) == "observe"@ {
        Some(State::Observe)
    } else if spec_norm(s) == "explore"@ {
        Some(State::Explore)
    } else if spec_norm(s) == "proceed"@ {
        Some(State::Proceed)
    } else if spec_norm(s) == "rest"@ {
        Some(State::Rest)
    } else if spec_norm(s) == "return"@ {
        Some(State::Return)
    } else {
        None
    }
}

/// Quadrant blocks: one character shows 2×2 pixels; the index is the sum of
/// 1 (top left), 2 (top right), 4 (bottom left) and 8 (bottom right).
pub const QUAD: [char; 16] = [
    ' ', '\u{2598}', '\u{259d}', '\u{2580}', '\u{2596}', '\u{258c}', '\u{259e}', '\u{259b}',
    '\u{2597}', '\u{259a}', '\u{2590}', '\u{259c}', '\u{2584}', '\u{2599}', '\u{259f}', '\u{2588}',
];

/// Whether pixel (x, y) of a `w`×`h` row-major bitmap is lit; outside is dark.
pub open spec fn px(bits: Seq<bool>, w: int, h: int, x: int, y: int) -> bool {
    0 <= x < w && 0 <= y < h && bits[y * w + x]
}

/// The quadrant index of the 2×2 block whose top left pixel is (x, y).
pub open spec fn quad_code(bits: Seq<bool>, w: int, h: int, x: int, y: int) -> int {
    (if px(bits, w, h, x, y) { 1int } else { 0int }) + (if px(bits, w, h, x + 1, y) { 2int } else { 0int })
        + (if px(bits, w, h, x, y + 1) { 4int } else { 0int }) + (if px(bits, w, h, x + 1, y + 1) { 8int } else { 0int })
}

/// The quadrant characters of the pixel rows `y` and `y + 1`.
pub open spec fn quad_row(bits: Seq<bool>, w: int, h: int, y: int) -> Seq<char> {
    Seq::new(((w + 1) / 2) as nat, |i: int| QUAD[quad_code(bits, w, h, 2 * i, y)])
}

/// Line `j` of the quadrant picture, without its trailing blanks.
pub open spec fn quad_line(bits: Seq<bool>, w: int, h: int, j: int) -> Seq<char> {
    quad_row(bits, w, h, 2 * j).subrange(0, trail_end(quad_row(bits, w, h, 2 * j)))
}

fn lit_px(bits: &[bool], w: usize, h: usize, x: usize, y: usize) -> (r: bool)
    requires
        w * h <= bits@.len(),
    ensures
        r == px(bits@, w as int, h as int, x as int, y as int),
{
    let n = bits.len();
    if x < w && y < h {
        assert(y * w + x < w * h) by (nonlinear_arith)
            requires
                x < w,
                y < h,
        ;
        bits[y * w + x]
    } else {
        false
    }
}

/// Packs a `w`×`h` pixel bitmap into lines of quadrant characters, two pixel
/// rows and two pixel columns to a character, with trailing blanks dropped.
pub fn to_lines(w: usize, h: usize, bits: &[bool]) -> (out: Vec<String>)
    requires
        w * h <= bits@.len(),
        w < usize::MAX,
        h < usize::MAX,
    ensures
        out@.len() == (h + 1) / 2,
        forall|j: int| 0 <= j < out@.len() ==> (#[trigger] out@[j])@ == quad_line(bits@, w as int, h as int, j),
{
    let mut out: Vec<String> = Vec::new();
    let mut y: usize = 0;
    while y < h
        invariant
            w * h <= bits@.len(),
            w < usize::MAX,
            h < usize::MAX,
            y % 2 == 0,
            y <= h + 1,
            out@.len() == y / 2,
            forall|j: int| 0 <= j < out@.len() ==> (#[trigger] out@[j])@ == quad_line(bits@, w as int, h as int, j),
        decreases h + 1 - y,
    {
        let mut line: Vec<char> = Vec::new();
        let mut x: usize = 0;
        while x < w
            invariant
                w * h <= bits@.len(),
                w < usize::MAX,
                y < h,
                x % 2 == 0,
                x <= w + 1,
                line@.len() == x / 2,
                forall|i: int| 0 <= i < line@.len() ==> #[trigger] line@[i] == QUAD[quad_code(bits@, w as int, h as int, 2 * i, y as int)],
            decreases w + 1 - x,
        {
            let a = lit_px(bits, w, h, x, y);
            let b = lit_px(bits, w, h, x + 1, y);
            let c = lit_px(bits, w, h, x, y + 1);
            let d = lit_px(bits, w, h, x + 1, y + 1);
            let v: usize = (if a { 1 } else { 0 }) + (if b { 2 } else { 0 }) + (if c { 4 } else { 0 }) + (if d { 8 } else { 0 });
            line.push(QUAD[v]);
            x = x + 2;
        }
        assert(line@ =~= quad_row(bits@, w as int, h as int, y as int));
        let t = trim_end_chars(line.as_slice());
        let ghost j = out@.len() as int;
        out.push(string_of(t.as_slice()));
        assert(2 * j == y);
        y = y + 2;
    }
    out
}

/// The ground's characters: mostly blank, some flat strokes, a few tufts.
pub const TUFTS: [char; 6] = ['\u{2581}', '\u{2582}', '\u{2581}', '\u{2583}', '\u{2581}', '\u{2582}'];

/// Column `i` of the ground line for `seed`.
pub open spec fn ground_at(seed: u64, i: int) -> char {
    let pick = (lcg_state(seed, (i + 1) as nat) >> 33u64) % 10;
    if pick < 5 {
        ' '
    } else if pick < 8 {
        '\u{2581}'
    } else {
        TUFTS[i % 6]
    }
}

/// The ground under a mascot: short strokes and tufts, `width` columns, so
/// that the silhouette stands somewhere. The same seed always gives the
/// same ground.
pub fn ground(width: usize, seed: u64) -> (r: String)
    ensures
        r@ == Seq::new(width as nat, |i: int| ground_at(seed, i)),
{
    let mut r: u64 = seed.wrapping_mul(0x9E37_79B9_7F4A_7C15).wrapping_add(0x5DEE_CE66_D000_0001);
    let mut v: Vec<char> = Vec::new();
    let mut i: usize = 0;
    while i < width
        invariant
            i <= width,
            r == lcg_state(seed, i as nat),
            v@ == Seq::new(i as nat, |k: int| ground_at(seed, k)),
        decreases width - i,
    {
        r = r.wrapping_mul(6364136223846793005).wrapping_add(1442695040888963407);
        let pick = (r >> 33) % 10;
        let c = if pick < 5 {
            ' '
        } else if pick < 8 {
            '\u{2581}'
        } else {
            TUFTS[i % 6]
        };
        v.push(c);
        i = i + 1;
        assert(v@ =~= Seq::new(i as nat, |k: int| ground_at(seed, k)));
    }
    string_of(v.as_slice())
}

/// The middle one of three numbers: `v` held between its neighbours.
pub fn median3(l: usize, v: usize, r: usize) -> (m: usize)
    ensures
        m == l || m == v || m == r,
        (if l <= m { 1int } else { 0int }) + (if v <= m { 1int } else { 0int }) + (if r <= m { 1int } else { 0int }) >= 2,
        (if l >= m { 1int } else { 0int }) + (if v >= m { 1int } else { 0int }) + (if r >= m { 1int } else { 0int }) >= 2,
{
    let lo = if l < r { l } else { r };
    let hi = if l > r { l } else { r };
    let inner = if v < hi { v } else { hi };
    if lo > inner { lo } else { inner }
}

/// What one animation frame does to the base silhouette. It is a difference,
/// not a picture: a blink only turns four pixels off.
#[derive(Clone, Debug)]
pub struct Frame {
    /// The back's upper contour moves up one pixel (it moves: the old pixel
    /// goes dark, so the outline does not thicken). Only over the pose's
    /// breathing span, so feet, ground, head and antlers stay put.
    pub breath: bool,
    /// The ears move the same way, over the pose's ear span.
    pub ears: bool,
    /// The tail: `0` down, `1` half raised, `2` fully raised.
    pub tail: i8,
    /// Pixels this frame turns off (a blink), as (column, row).
    pub clear: Vec<(u8, u8)>,
    /// Pixels this frame turns on, as (column, row).
    pub set: Vec<(u8, u8)>,
}

/// The shape of a raised tail: how far each column rises along the tail.
#[derive(Clone, Copy, Debug, PartialEq, Eq)]
pub enum Curve {
    /// The root stays, the tip rises most (a lying tail lifts only its end).
    Arc,
    /// The whole tail turns up from the root, then the tip droops again (a
    /// tail held in the air moves from the root).
    Wave,
}

impl Curve {
    /// How many pixels each column rises at least: a tail held in the air
    /// moves even at the root, a lying one does not.
    pub fn floor(self) -> (r: usize)
        ensures
            r == (if self == Curve::Wave { 1usize } else { 0usize }),
    {
        match self {
            Curve::Arc => 0,
            Curve::Wave => 1,
        }
    }

    /// How many pixels the lower edge may drop per column towards the tip:
    /// a lying tail may step down along the ground, a raised one may not.
    pub fn sag(self) -> (r: usize)
        ensures
            r == (if self == Curve::Arc { 1usize } else { 0usize }),
    {
        match self {
            Curve::Arc => 1,
            Curve::Wave => 0,
        }
    }
}

/// A whole pose.
#[derive(Debug)]
pub struct Pose {
    pub state: State,
    /// The pixel rows, `#` lit; all rows equally wide.
    pub art: [&'static str; 32],
    /// The columns (first, last) whose upper contour breathes.
    pub back: (u8, u8),
    /// The columns of the ears; `(0, 0)` for none.
    pub ears: (u8, u8),
    /// The tail box (tip column, root column, top row, bottom row);
    /// `(0, 0, 0, 0)` for a pose that never raises its tail.
    pub tail: (u8, u8, u8, u8),
    /// How many pixels the tail tip rises at most.
    pub tail_lift: u8,
    /// The shape of the raise.
    pub tail_curve: Curve,
    /// The animation loop; never empty.
    pub frames: Vec<Frame>,
}

/// The silhouettes, one per pose: foxes first, then deer, each in the
/// order observe, explore, proceed, rest, return. `#` is a lit pixel; every
/// row is 112 pixels wide, every silhouette 32 rows high.
pub const ARTS: [[&'static str; 32]; 10] = [
    [
        "                                                                                    #     ##                    ",
        "                                                                                    ###  #  #                   ",
        "                                                                                    ######  ##                  ",
        "                                                                                    ######   ###                ",
        "                                                                                  ##############                ",
        "                                                                                #################               ",
        "                                                                              ###   #############               ",
        "                                                                          ########################              ",
        "                                                                           #######     ###########              ",
        "                                                                                   ##       #######             ",
        "                                                                                 ######       #####             ",
        "                                                                                ########      ####              ",
        "                                                                          ###############      ####             ",
        "                                                          #############################         ###             ",
        "                                                     ###################################        ###             ",
        "                                             ############################################      ###              ",
        "                                          ############################################ ###     ###              ",
        "                                       ########## #####################################        ##               ",
        "                                  #############  ############# ########################       ###               ",
        "                            ##################   #############     ########### ########      #                  ",
        "                       #####################     ############                  ######      #                    ",
        "                     #####################       ###########       #           ######     #                     ",
        "                   ######################       ##########         #           ######    ##                     ",
        "                 #####################         #########          #             #####   ###                     ",
        "                 #################          ###########        ##               #####   ##                      ",
        "                #############             #########      ######                  ####   ##                      ",
        "                ########                 #####          ####                     ####  ##                       ",
        "            #   ###                      ####         ####                        ###  ##                       ",
        "            #   #                       ###           ####                        ###  ##                       ",
        "            #                          ###            ####                         ######                       ",
        "              # #                     ####              ###                         ####         #              ",
        "            # # ##                    ######            ######                       ######    #                ",
    ],
    [
        "                                                                                                                ",
        "                                                                                                ##   ##         ",
        "                                                                                               #### ###         ",
        "                                                                                             ###  # ###         ",
        "                                                                                          #####   #####         ",
        "                                                                                        #######   #####         ",
        "                                                                                       ####### #########        ",
        "                                                                                   #######################      ",
        "                                                                              ############################      ",
        "                                                  ###################### ############################   ###     ",
        "                                            ##################################################################  ",
        "                                 ################################################################# #############",
        "                            ####################################################################         ###### ",
        "                          ############# ###################################################                     ",
        "                        #############   #####################################################                   ",
        "                     #############      ##################################### #############                     ",
        "                    #############       #################  ################## #############                     ",
        "             ####################       ################      ###############  ############                     ",
        "         ######################        ##############               ########    #########                       ",
        "       #####################           ##############        #                  #########                       ",
        "     ######################           ##############         #                  ##########                      ",
        "    ################# ##             ############          #             #####    ##########                    ",
        "   #################              ############            ##           ######        #########                  ",
        " ################              ############       ##    ###            #####            ########                ",
        " ############                 ######              ##  ###              ####                 ######              ",
        "##################           #####               ######               ####                   ########           ",
        "########                     ####                #####               #####                      #####           ",
        "#####                      #####                 #####               ####                        ######         ",
        "#                         #####                   ######           #####                           ######       ",
        "                          ####                      #####          ####                              ######     ",
        "                        ######                       ######        ####                                #####    ",
        "                 #      ######                        ########     #######                 #                    ",
    ],
    [
        "                                                                                                                ",
        "                                                                                                                ",
        "                                                                                                                ",
        "                                                                                                                ",
        "                                                                                                                ",
        "                                                                                                                ",
        "                                                                                                                ",
        "                                                                                                                ",
        "                                                                                                                ",
        "                                                                                                                ",
        "                             ###########                ##########                                              ",
        "                        #####################    #####################                                          ",
        "                     ########################################################                    ##    #        ",
        "                 ############################# ###################################              ## #  ##        ",
        "            ###########################      ##########################################       ###  # ###        ",
        "           ######################          ######################################################  ## ##        ",
        "        #####################            #######################################################   #####        ",
        "      ####################               #################     ################################# ########       ",
        "   #####################                ################        ##########################################      ",
        " ##################                   ################                ##### ################################    ",
        " #################                   ###############                   ###  ################################    ",
        "#############                      #############           #              ########## ###### ##########   ###    ",
        "   #################            ############             #             ###########    ######  ################  ",
        "       ######                 ########           #     ##             ##########                       #########",
        "                            ######              #######               # #############                     ##### ",
        "                            #####              ######                 #     ############                        ",
        "                           ####                ####                 ###       ############                      ",
        "                          ####                 ######              ####           #########                     ",
        "                        ######                   #####             ###                #######                   ",
        "                        ####                      ####             ###                    #####                 ",
        "                        #####                      ########        ####                    ##########           ",
        "                        #######                       ######       ######                    #########          ",
    ],
    [
        "                                                                               #   ##                           ",
        "                                                                             ## #####                           ",
        "                                                                            ### #####                           ",
        "                                                                          ####  ######                          ",
        "                                                                         ####   ########                        ",
        "                                                                        #################                       ",
        "                                                                      ###############  ###                      ",
        "                                                                       #######################                  ",
        "                                                                      #############      #####                  ",
        "                                                                       ########                                 ",
        "                                                                     #########      #                           ",
        "                                                                     #########     ##                           ",
        "                                                                     #########     ###                          ",
        "                                                                   ############     ##                          ",
        "                                                                 ##############     ##                          ",
        "                                                              ##################    ##                          ",
        "                                                            ####################   ##                           ",
        "                                                            ####################   ##                           ",
        "                                                          ############## ######    #                            ",
        "                                                          #############  ######   #                             ",
        "                                                        #############    ######  ##                             ",
        "                                                        ############      ##### ##                              ",
        "                                                       #############      ##### ##                              ",
        "                                ################       #################   #### ##                              ",
        "                             ####################      ##################  #### ## ##                           ",
        "                          ##########################   ###################  ### ## ##                           ",
        "                         ###########################   ###################  ### #  ##                           ",
        "                        ###################     ###### ##################   ####   ##                           ",
        "                       #############              #### #################     ###   ##                           ",
        "                       #############                 ## ############          ###  ##                           ",
        "                       #######                          ##########   ######   #### ####                         ",
        "                 #     ####                 ######   ########################  ##### ####  #                    ",
    ],
    [
        "                                                                               #     ###                        ",
        "                                                                               ####  ## #                       ",
        "                                                                               ##### ## ###                     ",
        "                                                                                 ######  ###                    ",
        "                                                                                 #######  ###                   ",
        "                                                                               ################                 ",
        "                                                                              ##################                ",
        "                                                                             ###  ##############                ",
        "                                                                          ########################              ",
        "                                                                          ######      ############              ",
        "                                                                                 ##       ########              ",
        "                                                #######################      ########       #######             ",
        "                                           ##########################################       #######             ",
        "                                        ##############################################        #####             ",
        "                                    ######### #########################################       ####              ",
        "                                 ##########  ######################################## #      #####              ",
        "                              ###########    ############### ########################        ###                ",
        "                             ############    ###############  #######################        ###                ",
        "                          #############       ##############   ######################      ####                 ",
        "                      #################       #############         ######  ########       ##                   ",
        "                   ##################          ###########                  #######      ##                     ",
        "                 ###################          ###########                   #######     ##                      ",
        "                ##################           ##########        #           #######     ###                      ",
        "               #################            #########        ##              #####    ###                       ",
        "              ####################        ########        ###                ######  ###                        ",
        "              #############              #####          ##                    #####  ###                        ",
        "             #############              ####         ###                       ####  ##                         ",
        "             #########                  ###         ####                        ###  ##                         ",
        "             #######                  ####          ####                        #### ##                         ",
        "             #####                    ###            ###                         ### ##                         ",
        "              ####                   ####            ####                        ######                         ",
        "               ##                    #####            ######                      ########                      ",
    ],
    [
        "                                                                 ## #                #                          ",
        "                                                                 #### ##        #   ##                          ",
        "                                                                  ### #          #  #   #                       ",
        "                                                                   ####   #   #  ###  ###                       ",
        "                                                                     #######  #  #######                        ",
        "                                                                     ##  ####  #####                            ",
        "                                                                     ####  ######                               ",
        "                                                                      ######## #####                            ",
        "                                                                          ###########                           ",
        "                                                                          #######                               ",
        "                                                                          ######                                ",
        "                                                                         #######                                ",
        "                                                                         ########                               ",
        "                                                                     ############                               ",
        "                                                      ###########################                               ",
        "                                               ##################################                               ",
        "                                            #####################################                               ",
        "                                          #######################################                               ",
        "                                         ########################################                               ",
        "                                         ############### #######################                                ",
        "                                         #  ###########   ########## ######  ##                                 ",
        "                                            ##########               #####  ##                                  ",
        "                                           #########   ####          ####  ##                                   ",
        "                                          #######     ###            ####  #                                    ",
        "                                        #######     ####             #### ##                                    ",
        "                                      #####        ###                ##  ##                                    ",
        "                                      ###        ####                 ##  ##                                    ",
        "                                     ###          ##                  ##  #                                     ",
        "                      #              ##            ###                 #  #              #                      ",
        "                      #             ##              ###                ## #              #                      ",
        "                    #   #          ###               ###               ## #             #  #                    ",
        "                     ## # #        ##                 ###           #  #####         ## ##                      ",
    ],
    [
        "                                                                              #      #                          ",
        "                                                                            ##      ##                          ",
        "                                                                            ## #   ##                           ",
        "                                                                             # #  ##     #                      ",
        "                                                                             #### ##    ##   #                  ",
        "                                                                               #####   ##   ##                  ",
        "                                                                                 #######    #                   ",
        "                                                                               ###   #######                    ",
        "                                                                                ####  ###                       ",
        "                                                                                 ###########                    ",
        "                                                                                   ##########                   ",
        "                                                                                ################                ",
        "                                                                 #######     ####################               ",
        "                                      #################################################                         ",
        "                                    #################################################                           ",
        "                                 ###################################################                            ",
        "                               ### ################################################                             ",
        "                              ###  #############################################                                ",
        "                              #     ###########################################                                 ",
        "                                    ############# ################ ########                                     ",
        "                                    ############       #########   ##########                                   ",
        "                                   ###########                       #########                                  ",
        "                               ############    ##                ####   #######                                 ",
        "                             #########       ###                 ###        #####                               ",
        "                             #####         ####                 ####          ####                              ",
        "                             ##           ####                  ###             ###                             ",
        "                            ###           ####                 ###               ###                            ",
        "                           ###             ####                ##                 ###                           ",
        "                 #        ###               ####              ###                  ###                          ",
        "                 #       ###                  ###            ###                    ###                         ",
        "               ## # #   ####                   ####         ####           #         ###                        ",
        "                # # #   ####     ##             ####        ####       #  #           ###    # ##               ",
    ],
    [
        "                                                                                                                ",
        "                                                                                                                ",
        "                                                                                                                ",
        "                                                                                                                ",
        "                                                                                        ## ##     #             ",
        "                                                                                        ## ##   ###             ",
        "                                            ####                                         ####   ###             ",
        "                                   #################                                      ### ###     #     ##  ",
        "                             #######################################                       ######    ##    ###  ",
        "                        #################################################                    ###    ##    ###   ",
        "                    #########################################################                 ###  ##    ###    ",
        "                  #############################################################          ###    #####   ###    #",
        "                ###################################################################       #####  ####   #    ## ",
        "               ########################### ###########################################     #####   ## ### ####  ",
        "              ###### #################### ################################################# #####  #########    ",
        "             #####     #################  #############################################################         ",
        "              #       ################       ##############  ############ #############################         ",
        "                      ##############                         ########## ################################        ",
        "                     #############      ####              ###  ##########     ###################### ####       ",
        "                   ############      ######               #####   #######                    #############      ",
        "                ###########        ######                 #####     ######                      ###########     ",
        "             #########            #####                   ####        ######                        ########    ",
        "            ########            #####                    ####          ######                         ####      ",
        "           ######             ######                     ####            #####                                  ",
        "           ####               #####                      ###                ###                                 ",
        "           ####                 ####                    ###                 ####                                ",
        "           ###                   ####                   ###                  ####                               ",
        "         ####                     ####                 ###                    ####                              ",
        "         ####                       ####              ###                       ###                             ",
        "  #     ####                         ####            ###                        ####                            ",
        "#   #   ####      ##        #         ####           ###                         ####              #            ",
        "## ##  ####       # #      ##          #####        ####                 ##       ####        #  ##        #    ",
    ],
    [
        "                                                                          #      #                              ",
        "                                                                        ###     ### #                           ",
        "                                                                    #   ###      ## #                           ",
        "                                                                   ##   ##  #     ###                           ",
        "                                                                   ###  ##  #    ###                            ",
        "                                                                    #########    ##    #                        ",
        "                                                                       ########  #   ###                        ",
        "                                                                            #######  #                          ",
        "                                                                         ###   #######   #                      ",
        "                                                                         #####    ###  ###                      ",
        "                                                                          ######  #######                       ",
        "                                                                           ############                         ",
        "                                                                               ##########                       ",
        "                                                                             ########  ####                     ",
        "                                                                             ################                   ",
        "                                                                            ###################                 ",
        "                                                                           ###########   #####                  ",
        "                                                                           ###########                          ",
        "                                                                          ############                          ",
        "                                          ########                        #############                         ",
        "                                    #########################    ######### ############                         ",
        "                                #######################################################                         ",
        "                            ############################################################                        ",
        "                           ###################################################### ######                        ",
        "                          ######################### ############################## #####                        ",
        "                        ############################ #############################  ####                        ",
        "                        ############################ #############################  ###                         ",
        "               #       ###########################  ### ########### ##############   #                          ",
        "               ##      ##### ###################         ########  ############     ###        #                ",
        "                #      ###### #######  #######       ####          ################# ####      #                ",
        "              ##  #     ######       #####   ###############  ##    ######################   #   #              ",
        "          # # ## ## #     ####     ############################# # # ###################     # # #  #           ",
    ],
    [
        "                                                                        ##   ##                                 ",
        "                                                                    #     #####  #                              ",
        "                                                                    #   ##    ## #                              ",
        "                                                                    ##    ##  ####                              ",
        "                                                                      ##  ## ###                                ",
        "                                                                   ###########                                  ",
        "                                                                       ##########                               ",
        "                                                                       ###########                              ",
        "                                                                    ###############                             ",
        "                                                                    #####     ######                            ",
        "                                                               ######         #######                           ",
        "                                                          #################    #######                          ",
        "                                                       ###############################                          ",
        "                                                   ####################################                         ",
        "                                                 ######################################                         ",
        "                                                #####  ###############################                          ",
        "                                               #####  # ############ #################                          ",
        "                                               ###   #  ###########  ################                           ",
        "                                               #    ###  ##########    ###########                              ",
        "                                                   ####   ########       #   ####                               ",
        "                                                  ######  ######         ##  ####                               ",
        "                                                ######   ######           ## ###                                ",
        "                                              ######     #####            ### ##                                ",
        "                                            #####      #####               ## ##                                ",
        "                                           ####        ####                ## ##                                ",
        "                                           ###          ###                ## ##                                ",
        "                                          ###            ###                # ###                               ",
        "                      #                  ###              ###               ## ##                               ",
        "                       #    #            ##                ###              ## ###         #                    ",
        "                    #  #  ##            ##                  ###             ## ###        ##                    ",
        "                      ##  #  #         ###           #       ###    ##       ## ###     # #   #                 ",
        "                 # #  ## # # ##       ##### ### #  ## ##     ####  # ## # ## ####### #  #######                 ",
    ],
];

/// Each pose's geometry: the breathing span (first and last column), the
/// ear span, the tail box (tip column, root column, top row, bottom row),
/// how far the tail tip may rise, and its curve (0 arc, 1 wave).
pub const GEOMETRY: [[u8; 10]; 10] = [
    [28, 72, 82, 98, 14, 36, 17, 27, 18, 1],
    [24, 68, 94, 106, 0, 0, 0, 0, 0, 0],
    [16, 44, 86, 104, 0, 0, 0, 0, 0, 0],
    [52, 68, 74, 90, 23, 43, 22, 31, 12, 0],
    [28, 72, 78, 94, 0, 0, 0, 0, 0, 0],
    [40, 64, 0, 0, 0, 0, 0, 0, 0, 0],
    [32, 70, 0, 0, 0, 0, 0, 0, 0, 0],
    [20, 68, 0, 0, 0, 0, 0, 0, 0, 0],
    [28, 64, 0, 0, 0, 0, 0, 0, 0, 0],
    [44, 64, 0, 0, 0, 0, 0, 0, 0, 0],
];

/// Where each pose's eye is: the top left of the 2×2 pixels a blink turns off.
pub const EYES: [[u8; 2]; 10] = [
    [90, 8],
    [98, 6],
    [100, 19],
    [82, 6],
    [86, 8],
    [78, 8],
    [88, 8],
    [96, 6],
    [80, 10],
    [74, 6],
];

/// How many animation frames each pose loops through.
pub const FRAME_COUNTS: [usize; 10] = [35, 18, 16, 27, 16, 24, 18, 16, 20, 16];

/// Each pose's animation loop, as moves: 0 still, 1 breath, 2 ears, 3 tail
/// half raised, 4 tail raised, 5 blink. Past a pose's frame count the
/// entries are unused.
pub const FRAME_CODES: [[u8; 35]; 10] = [
    [0, 0, 0, 0, 5, 0, 0, 0, 0, 1, 1, 0, 0, 0, 2, 0, 0, 0, 0, 3, 4, 4, 4, 4, 3, 0, 3, 4, 3, 0, 5, 0, 0, 1, 0],
    [0, 0, 1, 0, 0, 2, 0, 0, 0, 5, 0, 0, 0, 1, 0, 0, 2, 0, 0, 0, 0, 0, 0, 0, 0, 0, 0, 0, 0, 0, 0, 0, 0, 0, 0],
    [0, 0, 0, 1, 0, 0, 0, 0, 0, 5, 0, 0, 1, 0, 0, 0, 0, 0, 0, 0, 0, 0, 0, 0, 0, 0, 0, 0, 0, 0, 0, 0, 0, 0, 0],
    [0, 0, 0, 0, 1, 1, 1, 0, 0, 3, 4, 4, 4, 4, 4, 3, 0, 0, 0, 5, 0, 0, 0, 1, 1, 0, 0, 0, 0, 0, 0, 0, 0, 0, 0],
    [0, 0, 0, 0, 5, 0, 0, 1, 0, 0, 0, 2, 0, 0, 0, 0, 0, 0, 0, 0, 0, 0, 0, 0, 0, 0, 0, 0, 0, 0, 0, 0, 0, 0, 0],
    [0, 0, 0, 0, 5, 0, 0, 0, 0, 1, 1, 0, 0, 0, 2, 0, 0, 0, 0, 5, 0, 0, 1, 0, 0, 0, 0, 0, 0, 0, 0, 0, 0, 0, 0],
    [0, 0, 1, 0, 0, 2, 0, 0, 0, 5, 0, 0, 0, 1, 0, 0, 2, 0, 0, 0, 0, 0, 0, 0, 0, 0, 0, 0, 0, 0, 0, 0, 0, 0, 0],
    [0, 0, 0, 1, 0, 0, 0, 0, 0, 5, 0, 0, 1, 0, 0, 0, 0, 0, 0, 0, 0, 0, 0, 0, 0, 0, 0, 0, 0, 0, 0, 0, 0, 0, 0],
    [0, 0, 0, 0, 1, 1, 1, 0, 0, 0, 0, 0, 5, 0, 0, 0, 1, 1, 0, 0, 0, 0, 0, 0, 0, 0, 0, 0, 0, 0, 0, 0, 0, 0, 0],
    [0, 0, 0, 0, 5, 0, 0, 1, 0, 0, 0, 2, 0, 0, 0, 0, 0, 0, 0, 0, 0, 0, 0, 0, 0, 0, 0, 0, 0, 0, 0, 0, 0, 0, 0],
];

/// The four pixels a blink turns off: the 2×2 block at `eye`.
pub open spec fn blink_points(eye: (u8, u8)) -> Seq<(u8, u8)> {
    seq![(eye.0, eye.1), ((eye.0 + 1) as u8, eye.1), (eye.0, (eye.1 + 1) as u8), ((eye.0 + 1) as u8, (eye.1 + 1) as u8)]
}

/// Whether `f` is the move `code` (see [`FRAME_CODES`]) for a pose whose eye
/// is at `eye`.
pub open spec fn is_move(f: Frame, code: u8, eye: (u8, u8)) -> bool {
    &&& f.breath == (code == 1)
    &&& f.ears == (code == 2)
    &&& f.tail == (if code == 3 { 1i8 } else if code == 4 { 2i8 } else { 0i8 })
    &&& f.clear@ == (if code == 5 { blink_points(eye) } else { Seq::empty() })
    &&& f.set@ == Seq::<(u8, u8)>::empty()
}

/// The frame for the move `code` of a pose whose eye is at `eye`.
pub fn frame_of(code: u8, eye: (u8, u8)) -> (f: Frame)
    requires
        eye.0 < 255,
        eye.1 < 255,
    ensures
        is_move(f, code, eye),
{
    let mut clear: Vec<(u8, u8)> = Vec::new();
    if code == 5 {
        clear.push((eye.0, eye.1));
        clear.push((eye.0 + 1, eye.1));
        clear.push((eye.0, eye.1 + 1));
        clear.push((eye.0 + 1, eye.1 + 1));
        assert(clear@ =~= blink_points(eye));
    }
    Frame {
        breath: code == 1,
        ears: code == 2,
        tail: if code == 3 {
            1
        } else if code == 4 {
            2
        } else {
            0
        },
        clear,
        set: Vec::new(),
    }
}

/// Where the pose of a species and state sits in the tables.
pub open spec fn pose_index(species: Species, state: State) -> int {
    (if species == Species::Fox { 0int } else { 5int }) + match state {
        State::Observe => 0int,
        State::Explore => 1,
        State::Proceed => 2,
        State::Rest => 3,
        State::Return => 4,
    }
}

/// The pose of a species in a state. Every species has every state.
pub fn pose(species: Species, state: State) -> (p: Pose)
    ensures
        ({
            let k = pose_index(species, state);
            &&& p.state == state
            &&& p.art == ARTS[k]
            &&& p.back == (GEOMETRY[k][0], GEOMETRY[k][1])
            &&& p.ears == (GEOMETRY[k][2], GEOMETRY[k][3])
            &&& p.tail == (GEOMETRY[k][4], GEOMETRY[k][5], GEOMETRY[k][6], GEOMETRY[k][7])
            &&& p.tail_lift == GEOMETRY[k][8]
            &&& p.tail_curve == (if GEOMETRY[k][9] == 1 { Curve::Wave } else { Curve::Arc })
            &&& p.frames@.len() == FRAME_COUNTS[k]
            &&& forall|j: int| 0 <= j < p.frames@.len() ==> is_move(#[trigger] p.frames@[j], FRAME_CODES[k][j], (EYES[k][0], EYES[k][1]))
        }),
{
    let k: usize = (match species {
        Species::Fox => 0,
        Species::Deer => 5,
    }) + match state {
        State::Observe => 0,
        State::Explore => 1,
        State::Proceed => 2,
        State::Rest => 3,
        State::Return => 4,
    };
    let g = GEOMETRY[k];
    let eye = (EYES[k][0], EYES[k][1]);
    let count = FRAME_COUNTS[k];
    let codes = FRAME_CODES[k];
    assert(forall|i: int| 0 <= i < 10 ==> #[trigger] EYES[i][0] < 255 && EYES[i][1] < 255);
    assert(forall|i: int| 0 <= i < 10 ==> #[trigger] FRAME_COUNTS[i] <= 35);
    let mut frames: Vec<Frame> = Vec::new();
    let mut j: usize = 0;
    while j < count
        invariant
            0 <= k < 10,
            count == FRAME_COUNTS[k as int],
            count <= 35,
            codes == FRAME_CODES[k as int],
            eye == (EYES[k as int][0], EYES[k as int][1]),
            eye.0 < 255,
            eye.1 < 255,
            j <= count,
            frames@.len() == j,
            forall|i: int| 0 <= i < j ==> is_move(#[trigger] frames@[i], codes[i], eye),
        decreases count - j,
    {
        frames.push(frame_of(codes[j], eye));
        j = j + 1;
    }
    Pose {
        state,
        art: ARTS[k],
        back: (g[0], g[1]),
        ears: (g[2], g[3]),
        tail: (g[4], g[5], g[6], g[7]),
        tail_lift: g[8],
        tail_curve: if g[9] == 1 {
            Curve::Wave
        } else {
            Curve::Arc
        },
        frames,
    }
}

/// Whether the pose at `k` in the tables ever raises its tail.
pub open spec fn raises_tail(k: int) -> bool {
    exists|j: int| 0 <= j < FRAME_COUNTS[k] && (#[trigger] FRAME_CODES[k][j] == 3 || FRAME_CODES[k][j] == 4)
}

proof fn lemma_no_tail_frames(k: int)
    requires
        0 <= k < 10,
        k != 0,
        k != 3,
    ensures
        !raises_tail(k),
{
    assert forall|j: int| 0 <= j < FRAME_COUNTS[k] implies !(#[trigger] FRAME_CODES[k][j] == 3 || FRAME_CODES[k][j] == 4) by {
        assert(FRAME_CODES[k][j] <= 2 || FRAME_CODES[k][j] == 5);
    }
}

/// Only the calm poses raise their tail, and only the fox's: a mascot
/// happily wagging while the machine strains would report the wrong thing.
/// The calm fox does wag, observing and resting.
pub proof fn lemma_only_calm_foxes_raise_their_tail(species: Species, state: State)
    ensures
        raises_tail(pose_index(species, state)) <==> (species == Species::Fox && (state == State::Observe || state == State::Rest)),
{
    let k = pose_index(species, state);
    if k == 0 {
        assert(FRAME_CODES[0][19] == 3);
    } else if k == 3 {
        assert(FRAME_CODES[3][9] == 3);
    } else {
        lemma_no_tail_frames(k);
    }
}

/// Pixel (x, y) of a `w`-wide row-major bitmap.
pub open spec fn cell(bits: Seq<bool>, w: int, x: int, y: int) -> bool {
    bits[y * w + x]
}

proof fn lemma_cell_unique(w: int, x: int, y: int, x2: int, y2: int)
    requires
        0 <= x < w,
        0 <= x2 < w,
        0 <= y,
        0 <= y2,
        y * w + x == y2 * w + x2,
    ensures
        x == x2,
        y == y2,
{
    if y < y2 {
        assert(y * w + w <= y2 * w) by (nonlinear_arith)
            requires
                y < y2,
                w > 0,
        ;
    } else if y > y2 {
        assert(y2 * w + w <= y * w) by (nonlinear_arith)
            requires
                y2 < y,
                w > 0,
        ;
    }
}

proof fn lemma_cell_in_range(w: int, h: int, x: int, y: int)
    requires
        0 <= x < w,
        0 <= y < h,
    ensures
        0 <= y * w + x < w * h,
{
    assert(0 <= y * w + x < w * h) by (nonlinear_arith)
        requires
            0 <= x < w,
            0 <= y < h,
    ;
}

/// The first lit row of column `x` at or below row `y`; `h` if none.
pub open spec fn first_lit(bits: Seq<bool>, w: int, h: int, x: int, y: int) -> int
    decreases h - y,
{
    if y < 0 || y >= h {
        h
    } else if cell(bits, w, x, y) {
        y
    } else {
        first_lit(bits, w, h, x, y + 1)
    }
}

proof fn lemma_first_lit_column(a: Seq<bool>, b: Seq<bool>, w: int, h: int, x: int, y: int)
    requires
        forall|yy: int| 0 <= yy < h ==> cell(a, w, x, yy) == cell(b, w, x, yy),
    ensures
        first_lit(a, w, h, x, y) == first_lit(b, w, h, x, y),
    decreases h - y,
{
    if 0 <= y < h {
        assert(cell(a, w, x, y) == cell(b, w, x, y));
        lemma_first_lit_column(a, b, w, h, x, y + 1);
    }
}

/// Whether column `x` is in the span `(first, last)` that a contour move
/// covers in a `w`-wide bitmap (an empty or off-picture span covers none).
pub open spec fn in_span(span: (u8, u8), w: int, x: int) -> bool {
    span.0 < span.1 && span.0 < w && span.0 <= x <= span.1 && x < w
}

/// Pixel (x, y) after the upper contour over `span` moved up one pixel: in
/// each covered column whose topmost lit pixel is below the first row, that
/// pixel goes dark and the one above it lights.
pub open spec fn morphed(bits: Seq<bool>, w: int, h: int, span: (u8, u8), x: int, y: int) -> bool {
    let t = first_lit(bits, w, h, x, 0);
    if in_span(span, w, x) && 0 < t < h {
        if y == t {
            false
        } else if y == t - 1 {
            true
        } else {
            cell(bits, w, x, y)
        }
    } else {
        cell(bits, w, x, y)
    }
}

/// Moves the upper contour over the columns of `span` up by one pixel. It
/// moves rather than thickens: the old contour pixel goes dark, so the
/// amount of ink stays the same.
pub fn morph_top(bits: &mut Vec<bool>, w: usize, h: usize, span: (u8, u8))
    requires
        w * h <= old(bits)@.len(),
    ensures
        final(bits)@.len() == old(bits)@.len(),
        forall|x: int, y: int| 0 <= x < w && 0 <= y < h ==>
            #[trigger] cell(final(bits)@, w as int, x, y) == morphed(old(bits)@, w as int, h as int, span, x, y),
        forall|i: int| w * h <= i < old(bits)@.len() ==> final(bits)@[i] == old(bits)@[i],
{
    let ghost start = bits@;
    let n = bits.len();
    let x0 = span.0 as usize;
    let x1 = span.1 as usize;
    if x1 <= x0 || x0 >= w {
        assert forall|x: int, y: int| 0 <= x < w && 0 <= y < h implies
            #[trigger] cell(bits@, w as int, x, y) == morphed(start, w as int, h as int, span, x, y) by {}
        return;
    }
    let last = if x1 < w - 1 { x1 } else { w - 1 };
    let mut x: usize = x0;
    while x <= last
        invariant
            bits@.len() == start.len(),
            n == start.len(),
            w * h <= n,
            x0 == span.0,
            x1 == span.1,
            x0 < x1,
            x0 < w,
            last < w,
            last <= x1,
            last == x1 || last == w - 1,
            x0 <= x <= last + 1,
            forall|c: int, y: int| 0 <= c < w && 0 <= y < h ==>
                #[trigger] cell(bits@, w as int, c, y) == if x0 <= c < x { morphed(start, w as int, h as int, span, c, y) } else { cell(start, w as int, c, y) },
            forall|i: int| w * h <= i < n ==> bits@[i] == start[i],
        decreases last + 1 - x,
    {
        let mut y: usize = 0;
        proof {
            assert forall|yy: int| 0 <= yy < h implies cell(bits@, w as int, x as int, yy) == cell(start, w as int, x as int, yy) by {}
            lemma_first_lit_column(bits@, start, w as int, h as int, x as int, 0);
        }
        let mut top: usize = h;
        while y < h
            invariant
                bits@.len() == n,
                w * h <= n,
                x < w,
                y <= h,
                top <= h,
                top == h ==> first_lit(bits@, w as int, h as int, x as int, 0) == first_lit(bits@, w as int, h as int, x as int, y as int),
                top < h ==> first_lit(bits@, w as int, h as int, x as int, 0) == top,
            decreases h - y,
        {
            proof {
                lemma_cell_in_range(w as int, h as int, x as int, y as int);
            }
            if top == h && bits[y * w + x] {
                top = y;
            }
            y = y + 1;
        }
        let y = top;
        let ghost t = y as int;
        if y < h && y > 0 {
            let ghost before = bits@;
            proof {
                lemma_cell_in_range(w as int, h as int, x as int, y as int);
                lemma_cell_in_range(w as int, h as int, x as int, y - 1);
            }
            bits.set(y * w + x, false);
            bits.set((y - 1) * w + x, true);
            proof {
                assert((t - 1) * w + x + w == t * w + x) by (nonlinear_arith);
                assert(first_lit(start, w as int, h as int, x as int, 0) == t);
                assert(in_span(span, w as int, x as int));
                assert forall|c: int, yy: int| 0 <= c < w && 0 <= yy < h implies
                    #[trigger] cell(bits@, w as int, c, yy) == if x0 <= c < x + 1 { morphed(start, w as int, h as int, span, c, yy) } else { cell(start, w as int, c, yy) } by {
                    lemma_cell_in_range(w as int, h as int, c, yy);
                    if c == x as int && yy == t {
                    } else if c == x as int && yy == t - 1 {
                    } else {
                        if yy * w + c == t * w + x {
                            lemma_cell_unique(w as int, c, yy, x as int, t);
                        }
                        if yy * w + c == (t - 1) * w + x {
                            lemma_cell_unique(w as int, c, yy, x as int, t - 1);
                        }
                        assert(cell(bits@, w as int, c, yy) == cell(before, w as int, c, yy));
                    }
                }
                assert forall|i: int| w * h <= i < n implies bits@[i] == start[i] by {}
            }
        } else {
            proof {
                assert forall|c: int, yy: int| 0 <= c < w && 0 <= yy < h implies
                    #[trigger] cell(bits@, w as int, c, yy) == if x0 <= c < x + 1 { morphed(start, w as int, h as int, span, c, yy) } else { cell(start, w as int, c, yy) } by {}
            }
        }
        x = x + 1;
    }
    proof {
        assert forall|c: int, y: int| 0 <= c < w && 0 <= y < h implies
            #[trigger] cell(bits@, w as int, c, y) == morphed(start, w as int, h as int, span, c, y) by {
            if !(x0 <= c < x) {
                assert(!in_span(span, w as int, c));
            }
        }
    }
}

/// Whether `pts` holds the pixel (x, y).
pub open spec fn has_point(pts: Seq<(u8, u8)>, x: int, y: int) -> bool {
    exists|j: int| 0 <= j < pts.len() && #[trigger] pts[j].0 == x && pts[j].1 == y
}

fn mark(bits: &mut Vec<bool>, w: usize, h: usize, pts: &[(u8, u8)], value: bool)
    requires
        w * h <= old(bits)@.len(),
    ensures
        final(bits)@.len() == old(bits)@.len(),
        forall|x: int, y: int| 0 <= x < w && 0 <= y < h ==>
            #[trigger] cell(final(bits)@, w as int, x, y) == if has_point(pts@, x, y) { value } else { cell(old(bits)@, w as int, x, y) },
        forall|i: int| w * h <= i < old(bits)@.len() ==> final(bits)@[i] == old(bits)@[i],
{
    let ghost start = bits@;
    let n = bits.len();
    let mut k: usize = 0;
    while k < pts.len()
        invariant
            bits@.len() == n,
            n == start.len(),
            w * h <= n,
            k <= pts@.len(),
            forall|x: int, y: int| 0 <= x < w && 0 <= y < h ==>
                #[trigger] cell(bits@, w as int, x, y) == if has_point(pts@.subrange(0, k as int), x, y) { value } else { cell(start, w as int, x, y) },
            forall|i: int| w * h <= i < n ==> bits@[i] == start[i],
        decreases pts@.len() - k,
    {
        let (px, py) = pts[k];
        let ghost before = bits@;
        let ghost sub = pts@.subrange(0, k as int);
        let ghost next = pts@.subrange(0, k + 1);
        if (px as usize) < w && (py as usize) < h {
            proof {
                lemma_cell_in_range(w as int, h as int, px as int, py as int);
            }
            bits.set(py as usize * w + px as usize, value);
        }
        proof {
            assert forall|x: int, y: int| 0 <= x < w && 0 <= y < h implies
                #[trigger] cell(bits@, w as int, x, y) == if has_point(next, x, y) { value } else { cell(start, w as int, x, y) } by {
                lemma_cell_in_range(w as int, h as int, x, y);
                assert(cell(before, w as int, x, y) == if has_point(sub, x, y) { value } else { cell(start, w as int, x, y) });
                if x == px as int && y == py as int {
                    assert(next[k as int].0 == x && next[k as int].1 == y);
                } else {
                    if (px as int) < w && (py as int) < h && y * w + x == py * w + px {
                        lemma_cell_unique(w as int, x, y, px as int, py as int);
                    }
                    assert(cell(bits@, w as int, x, y) == cell(before, w as int, x, y));
                    if has_point(next, x, y) {
                        let j = choose|j: int| 0 <= j < next.len() && #[trigger] next[j].0 == x && next[j].1 == y;
                        assert(j < k);
                        assert(sub[j] == next[j]);
                    }
                    if has_point(sub, x, y) {
                        let j = choose|j: int| 0 <= j < sub.len() && #[trigger] sub[j].0 == x && sub[j].1 == y;
                        assert(next[j] == sub[j]);
                    }
                }
            }
        }
        k = k + 1;
    }
    assert(pts@.subrange(0, pts@.len() as int) == pts@);
}

/// Applies a frame's marks: the pixels of `clear` go dark, then those of
/// `set` light (so a pixel in both is lit). Marks outside the picture are
/// ignored.
pub fn apply_marks(bits: &mut Vec<bool>, w: usize, h: usize, clear: &[(u8, u8)], set: &[(u8, u8)])
    requires
        w * h <= old(bits)@.len(),
    ensures
        final(bits)@.len() == old(bits)@.len(),
        forall|x: int, y: int| 0 <= x < w && 0 <= y < h ==>
            #[trigger] cell(final(bits)@, w as int, x, y) == if has_point(set@, x, y) {
                true
            } else if has_point(clear@, x, y) {
                false
            } else {
                cell(old(bits)@, w as int, x, y)
            },
        forall|i: int| w * h <= i < old(bits)@.len() ==> final(bits)@[i] == old(bits)@[i],
{
    let ghost start = bits@;
    mark(bits, w, h, clear, false);
    let ghost mid = bits@;
    mark(bits, w, h, set, true);
    assert forall|x: int, y: int| 0 <= x < w && 0 <= y < h implies
        #[trigger] cell(bits@, w as int, x, y) == if has_point(set@, x, y) {
            true
        } else if has_point(clear@, x, y) {
            false
        } else {
            cell(start, w as int, x, y)
        } by {
        assert(cell(mid, w as int, x, y) == if has_point(clear@, x, y) { false } else { cell(start, w as int, x, y) });
    }
}

/// The widest row of a picture, in characters.
pub open spec fn art_width(art: Seq<&'static str>) -> nat
    decreases art.len(),
{
    if art.len() == 0 {
        0
    } else {
        let rest = art_width(art.drop_last());
        if art.last()@.len() > rest { art.last()@.len() } else { rest }
    }
}

/// Whether the picture lights pixel (x, y): its row has a `#` there.
pub open spec fn art_lit(art: Seq<&'static str>, x: int, y: int) -> bool {
    0 <= y < art.len() && 0 <= x < art[y]@.len() && art[y]@[x] == '#'
}

proof fn lemma_art_width(art: Seq<&'static str>)
    ensures
        forall|y: int| 0 <= y < art.len() ==> (#[trigger] art[y])@.len() <= art_width(art),
        art.len() > 0 ==> exists|y: int| 0 <= y < art.len() && (#[trigger] art[y])@.len() == art_width(art),
        art.len() == 0 ==> art_width(art) == 0,
    decreases art.len(),
{
    if art.len() > 0 {
        lemma_art_width(art.drop_last());
        assert forall|y: int| 0 <= y < art.len() implies (#[trigger] art[y])@.len() <= art_width(art) by {
            if y < art.len() - 1 {
                assert(art[y] == art.drop_last()[y]);
            }
        }
        if art.len() > 1 && art_width(art) == art_width(art.drop_last()) {
            let y = choose|y: int| 0 <= y < art.drop_last().len() && (#[trigger] art.drop_last()[y])@.len() == art_width(art.drop_last());
            assert(art[y] == art.drop_last()[y]);
        } else {
            assert(art[art.len() - 1]@.len() == art_width(art));
        }
    }
}

/// The pixels of a picture: `(width, height, bits)`, width the widest row,
/// bits row-major and lit exactly where a row has `#`.
pub fn art_bits(art: &[&'static str]) -> (r: (usize, usize, Vec<bool>))
    requires
        art_width(art@) * art@.len() <= usize::MAX,
    ensures
        r.0 == art_width(art@),
        r.1 == art@.len(),
        r.2@.len() == r.0 * r.1,
        forall|x: int, y: int| 0 <= x < r.0 && 0 <= y < r.1 ==> #[trigger] cell(r.2@, r.0 as int, x, y) == art_lit(art@, x, y),
{
    proof {
        lemma_art_width(art@);
    }
    let h = art.len();
    let mut rows: Vec<Vec<char>> = Vec::new();
    let mut w: usize = 0;
    let mut k: usize = 0;
    while k < h
        invariant
            h == art@.len(),
            k <= h,
            rows@.len() == k,
            forall|j: int| 0 <= j < k ==> (#[trigger] rows@[j])@ == art@[j]@,
            w == art_width(art@.subrange(0, k as int)),
        decreases h - k,
    {
        let cs = chars_of(art[k]);
        proof {
            assert(art@.subrange(0, k + 1).drop_last() == art@.subrange(0, k as int));
        }
        if cs.len() > w {
            w = cs.len();
        }
        rows.push(cs);
        k = k + 1;
    }
    assert(art@.subrange(0, h as int) == art@);
    assert(w * h <= usize::MAX);
    let mut bits: Vec<bool> = Vec::new();
    let mut y: usize = 0;
    while y < h
        invariant
            h == art@.len(),
            w == art_width(art@),
            w * h <= usize::MAX,
            rows@.len() == h,
            forall|j: int| 0 <= j < h ==> (#[trigger] rows@[j])@ == art@[j]@,
            y <= h,
            bits@.len() == y * w,
            forall|x: int, yy: int| 0 <= x < w && 0 <= yy < y ==> #[trigger] cell(bits@, w as int, x, yy) == art_lit(art@, x, yy),
        decreases h - y,
    {
        let row = &rows[y];
        let mut x: usize = 0;
        assert(y * w + w <= w * h) by (nonlinear_arith)
            requires
                y < h,
        ;
        while x < w
            invariant
                h == art@.len(),
                w == art_width(art@),
                y < h,
                y * w + w <= w * h,
                w * h <= usize::MAX,
                row@ == art@[y as int]@,
                x <= w,
                bits@.len() == y * w + x,
                forall|xx: int, yy: int| 0 <= xx < w && 0 <= yy < y ==> #[trigger] cell(bits@, w as int, xx, yy) == art_lit(art@, xx, yy),
                forall|xx: int| 0 <= xx < x ==> #[trigger] cell(bits@, w as int, xx, y as int) == art_lit(art@, xx, y as int),
            decreases w - x,
        {
            let lit = x < row.len() && row[x] == '#';
            let ghost before = bits@;
            bits.push(lit);
            proof {
                assert forall|xx: int, yy: int| 0 <= xx < w && 0 <= yy < y implies #[trigger] cell(bits@, w as int, xx, yy) == art_lit(art@, xx, yy) by {
                    assert(yy * w + xx < y * w) by (nonlinear_arith)
                        requires
                            0 <= xx < w,
                            0 <= yy < y,
                    ;
                    assert(cell(before, w as int, xx, yy) == art_lit(art@, xx, yy));
                }
                assert forall|xx: int| 0 <= xx < x + 1 implies #[trigger] cell(bits@, w as int, xx, y as int) == art_lit(art@, xx, y as int) by {
                    if xx < x {
                        assert(cell(before, w as int, xx, y as int) == art_lit(art@, xx, y as int));
                    }
                }
            }
            x = x + 1;
        }
        proof {
            assert((y + 1) * w == y * w + w) by (nonlinear_arith);
        }
        y = y + 1;
    }
    assert(h * w == w * h) by (nonlinear_arith);
    (w, h, bits)
}

/// A pose's name, in capitals.
pub open spec fn spec_state_name(st: State) -> Seq<char> {
    match st {
        State::Observe => "OBSERVE"@,
        State::Explore => "EXPLORE"@,
        State::Proceed => "PROCEED"@,
        State::Rest => "REST"@,
        State::Return => "RETURN"@,
    }
}

/// The word a configuration uses for a pose.
pub open spec fn spec_state_word(st: State) -> Seq<char> {
    match st {
        State::Observe => "observe"@,
        State::Explore => "explore"@,
        State::Proceed => "proceed"@,
        State::Rest => "rest"@,
        State::Return => "return"@,
    }
}

/// A pose's name reads back as that pose, and so does the word a
/// configuration uses for it, whatever its case.
pub proof fn lemma_state_names_round_trip(st: State)
    ensures
        spec_parse_state(spec_state_name(st)) == Some(st),
        spec_parse_state(spec_state_word(st)) == Some(st),
        spec_state_name(st) == spec_state_word(st).map_values(|c: char| spec_upper(c)),
{
    reveal_strlit("observe");
    reveal_strlit("explore");
    reveal_strlit("proceed");
    reveal_strlit("rest");
    reveal_strlit("return");
    reveal_strlit("OBSERVE");
    reveal_strlit("EXPLORE");
    reveal_strlit("PROCEED");
    reveal_strlit("REST");
    reveal_strlit("RETURN");
    let w = spec_state_word(st);
    assert(small_word(w));
    lemma_norm_of_word(w);
    assert(spec_state_name(st) =~= w.map_values(|c: char| spec_upper(c)));
    assert("explore"@[1] != "observe"@[1]);
    assert("proceed"@[0] != "observe"@[0]);
    assert("proceed"@[0] != "explore"@[0]);
    assert("return"@[2] != "observe"@[2]);
}

} // verus!
