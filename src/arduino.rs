//! Invocations of the board toolchain and reading its board list.

use crate::settings::Board;
use crate::text::{piece, piece_at, piece_count, positions_of};
use vstd::prelude::*;

verus! {

/// A run of the board toolchain: the program and its arguments.
#[derive(Clone, Debug, PartialEq, Eq)]
pub struct Invocation {
    pub program: String,
    pub args: Vec<String>,
}

pub open spec fn views(v: Seq<String>) -> Seq<Seq<char>> {
    v.map_values(|s: String| s@)
}

pub open spec fn toolchain() -> Seq<char> {
    "arduino-cli"@
}

/// Where the sketch sources live.
pub open spec fn sketch_root() -> Seq<char> {
    "/var/lib/cultiva/cultiva-microcontroller/"@
}

/// A board name with its `:` separators turned into `/`.
pub open spec fn slashed(name: Seq<char>) -> Seq<char> {
    name.map_values(|c: char| if c == ':' { '/' } else { c })
}

/// The sketch directory for the board with fully qualified name `b_name`.
pub fn get_code_path(b_name: &str) -> (r: String)
    ensures
        r@ == sketch_root() + slashed(b_name@),
{
    let n = b_name.unicode_len();
    let mut path = String::from_str("/var/lib/cultiva/cultiva-microcontroller/");
    let mut seg: usize = 0;
    let mut i: usize = 0;
    while i < n
        invariant
            n == b_name@.len(),
            0 <= seg <= i <= n,
            path@ == sketch_root() + slashed(b_name@.take(seg as int)),
            forall|k: int| seg <= k < i ==> b_name@[k] != ':',
        decreases n - i,
    {
        if b_name.get_char(i) == ':' {
            let part = b_name.substring_char(seg, i);
            proof {
                reveal_strlit("/");
                assert(slashed(b_name@.take(i as int + 1)) =~= slashed(b_name@.take(seg as int))
                    + part@ + "/"@);
            }
            path.append(part);
            path.append("/");
            seg = i + 1;
        }
        i = i + 1;
    }
    let rest = b_name.substring_char(seg, n);
    proof {
        assert(slashed(b_name@) =~= slashed(b_name@.take(seg as int)) + rest@);
    }
    path.append(rest);
    path
}

/// Decimal digits of `n`.
pub open spec fn decimal(n: nat) -> Seq<char>
    decreases n,
{
    if n < 10 {
        seq![(48 + n) as char]
    } else {
        decimal(n / 10) + seq![(48 + n % 10) as char]
    }
}

fn digit_text(d: u8) -> (r: &'static str)
    requires
        d < 10,
    ensures
        r@ == seq![(48 + d) as char],
{
    proof {
        reveal_strlit("0");
        reveal_strlit("1");
        reveal_strlit("2");
        reveal_strlit("3");
        reveal_strlit("4");
        reveal_strlit("5");
        reveal_strlit("6");
        reveal_strlit("7");
        reveal_strlit("8");
        reveal_strlit("9");
    }
    let r = match d {
        0 => "0",
        1 => "1",
        2 => "2",
        3 => "3",
        4 => "4",
        5 => "5",
        6 => "6",
        7 => "7",
        8 => "8",
        _ => "9",
    };
    assert(r@ =~= seq![(48 + d) as char]);
    r
}

/// Decimal text of a byte.
pub fn decimal_text(n: u8) -> (r: String)
    ensures
        r@ == decimal(n as nat),
{
    let mut s = String::new();
    if n >= 100 {
        s.append(digit_text(n / 100));
    }
    if n >= 10 {
        s.append(digit_text((n / 10) % 10));
    }
    s.append(digit_text(n % 10));
    proof {
        let hi = seq![(48 + n / 100) as char];
        let mid = seq![(48 + (n / 10) % 10) as char];
        let lo = seq![(48 + n % 10) as char];
        if n < 10 {
            assert(s@ =~= lo);
        } else if n < 100 {
            assert(decimal((n / 10) as nat) == seq![(48 + n / 10) as char]);
            assert((n / 10) % 10 == n / 10);
            assert(s@ =~= mid + lo);
        } else {
            assert((n / 10) / 10 == n / 100);
            assert(decimal((n / 100) as nat) == hi);
            assert(decimal((n / 10) as nat) == hi + mid);
            assert(s@ =~= hi + mid + lo);
        }
    }
    s
}

/// The build property that selects the firmware's drivers.
pub open spec fn build_flags(sensors_flag: u8, actuators_flag: u8) -> Seq<char> {
    "build.extra_flags=-DSENSORS="@ + decimal(sensors_flag as nat) + " -DACTUATORS="@ + decimal(
        actuators_flag as nat,
    )
}

/// Compiles the sketch for the board with the given driver flags.
pub fn compile_sketch(board_name: &str, sensors_flag: u8, actuators_flag: u8) -> (r: Invocation)
    ensures
        r.program@ == toolchain(),
        views(r.args@) == seq![
            "compile"@,
            "-b"@,
            board_name@,
            "--build-property"@,
            build_flags(sensors_flag, actuators_flag),
            sketch_root() + slashed(board_name@),
        ],
{
    let path = get_code_path(board_name);
    let mut flags = String::from_str("build.extra_flags=-DSENSORS=");
    flags.append(decimal_text(sensors_flag).as_str());
    flags.append(" -DACTUATORS=");
    flags.append(decimal_text(actuators_flag).as_str());
    let mut args: Vec<String> = Vec::new();
    args.push(String::from_str("compile"));
    args.push(String::from_str("-b"));
    args.push(String::from_str(board_name));
    args.push(String::from_str("--build-property"));
    args.push(flags);
    args.push(path);
    let r = Invocation { program: String::from_str("arduino-cli"), args };
    assert(views(r.args@) =~= seq![
        "compile"@,
        "-b"@,
        board_name@,
        "--build-property"@,
        build_flags(sensors_flag, actuators_flag),
        sketch_root() + slashed(board_name@),
    ]);
    r
}

/// Uploads the compiled sketch to the board on `port`.
pub fn upload_sketch(board_name: &str, port: &str) -> (r: Invocation)
    ensures
        r.program@ == toolchain(),
        views(r.args@) == seq![
            "upload"@,
            sketch_root() + slashed(board_name@),
            "-p"@,
            port@,
            "-b"@,
            board_name@,
        ],
{
    let path = get_code_path(board_name);
    let mut args: Vec<String> = Vec::new();
    args.push(String::from_str("upload"));
    args.push(path);
    args.push(String::from_str("-p"));
    args.push(String::from_str(port));
    args.push(String::from_str("-b"));
    args.push(String::from_str(board_name));
    let r = Invocation { program: String::from_str("arduino-cli"), args };
    assert(views(r.args@) =~= seq![
        "upload"@,
        sketch_root() + slashed(board_name@),
        "-p"@,
        port@,
        "-b"@,
        board_name@,
    ]);
    r
}

/// Installs the toolchain core `name`.
pub fn install_core(name: &str) -> (r: Invocation)
    ensures
        r.program@ == toolchain(),
        views(r.args@) == seq!["core"@, "install"@, name@],
{
    let mut args: Vec<String> = Vec::new();
    args.push(String::from_str("core"));
    args.push(String::from_str("install"));
    args.push(String::from_str(name));
    let r = Invocation { program: String::from_str("arduino-cli"), args };
    assert(views(r.args@) =~= seq!["core"@, "install"@, name@]);
    r
}

/// Installs the sensor driver libraries the sketch needs.
pub fn install_libraries() -> (r: Invocation)
    ensures
        r.program@ == toolchain(),
        views(r.args@) == seq!["lib"@, "install"@, "DHT sensor library"@],
{
    let mut args: Vec<String> = Vec::new();
    args.push(String::from_str("lib"));
    args.push(String::from_str("install"));
    args.push(String::from_str("DHT sensor library"));
    let r = Invocation { program: String::from_str("arduino-cli"), args };
    assert(views(r.args@) =~= seq!["lib"@, "install"@, "DHT sensor library"@]);
    r
}

/// Why no board could be read from the toolchain's board list.
#[derive(Clone, Copy, Debug, PartialEq, Eq, Structural)]
pub enum BoardListError {
    /// The list holds no board.
    NoBoard,
    /// The list holds more than one board.
    MultipleBoards,
    /// The board's line has fewer columns than the list's header promises.
    Malformed,
}

/// The text `s` without leading and trailing whitespace.
pub uninterp spec fn trimmed(s: Seq<char>) -> Seq<char>;

/// Relies on `str::trim`: the text with leading and trailing whitespace
/// removed, which is a part of it.
#[verifier::external_body]
fn trim(s: &str) -> (r: String)
    ensures
        r@ == trimmed(s@),
        r@.len() <= s@.len(),
        exists|k: int| 0 <= k <= s@.len() - r@.len() && r@ == #[trigger] s@.subrange(k, k + r@.len()),
{
    s.trim().to_string()
}

/// What a trimmed board list `t` gives: its second line is the one board,
/// whose first space-separated column is the port and tenth the name.
pub open spec fn board_list_result(t: Seq<char>, r: Result<Board, BoardListError>) -> bool {
    let lines = piece_count(t, '\n');
    if lines <= 1 {
        r == Err::<Board, BoardListError>(BoardListError::NoBoard)
    } else if lines > 2 {
        r == Err::<Board, BoardListError>(BoardListError::MultipleBoards)
    } else {
        let line = piece(t, '\n', 1);
        if piece_count(line, ' ') < 10 {
            r == Err::<Board, BoardListError>(BoardListError::Malformed)
        } else {
            r matches Ok(b) && b.name@ == piece(line, ' ', 9) && b.port@ == piece(line, ' ', 0)
        }
    }
}

/// Reads the one attached board from a trimmed board list.
pub fn board_from_lines(t: &str) -> (r: Result<Board, BoardListError>)
    ensures
        board_list_result(t@, r),
{
    let breaks = positions_of(t, '\n');
    if breaks.len() < 1 {
        return Err(BoardListError::NoBoard);
    }
    if breaks.len() > 1 {
        return Err(BoardListError::MultipleBoards);
    }
    let line = piece_at(t, '\n', &breaks, 1);
    let spaces = positions_of(line.as_str(), ' ');
    if spaces.len() < 9 {
        return Err(BoardListError::Malformed);
    }
    let name = piece_at(line.as_str(), ' ', &spaces, 9);
    let port = piece_at(line.as_str(), ' ', &spaces, 0);
    Ok(Board { name, port })
}

/// Reads the one attached board from the toolchain's board list output.
pub fn board_from_list(out: &str) -> (r: Result<Board, BoardListError>)
    ensures
        board_list_result(trimmed(out@), r),
{
    let t = trim(out);
    board_from_lines(t.as_str())
}

} // verus!
