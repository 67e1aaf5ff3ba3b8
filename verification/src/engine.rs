use vstd::prelude::*;

verus! {

/// The whitespace the engine's line protocol separates tokens with.
pub open spec fn is_ws(c: char) -> bool {
    c == ' ' || c == '\t' || c == '\r' || c == '\n'
}

/// The first index at or after `i` holding a non-whitespace character, or
/// the line's end.
pub open spec fn spec_skip_ws(s: Seq<char>, i: int) -> int
    decreases s.len() - i,
{
    if i >= s.len() {
        s.len() as int
    } else if is_ws(s[i]) {
        spec_skip_ws(s, i + 1)
    } else {
        i
    }
}

/// The first index at or after `i` holding whitespace, or the line's end.
pub open spec fn spec_skip_word(s: Seq<char>, i: int) -> int
    decreases s.len() - i,
{
    if i >= s.len() {
        s.len() as int
    } else if !is_ws(s[i]) {
        spec_skip_word(s, i + 1)
    } else {
        i
    }
}

/// The line's second whitespace-separated token, if it has two.
pub open spec fn spec_second_token(s: Seq<char>) -> Option<Seq<char>> {
    let a = spec_skip_ws(s, 0);
    let b = spec_skip_word(s, a);
    let c = spec_skip_ws(s, b);
    let d = spec_skip_word(s, c);
    if c < s.len() {
        Some(s.subrange(c, d))
    } else {
        None
    }
}

/// Whether the line opens with the given characters.
pub open spec fn spec_starts_with(s: Seq<char>, p: Seq<char>) -> bool {
    s.len() >= p.len() && s.subrange(0, p.len() as int) == p
}

fn is_ws_char(c: char) -> (b: bool)
    ensures
        b == is_ws(c),
{
    c == ' ' || c == '\t' || c == '\r' || c == '\n'
}

fn skip_ws(line: &str, start: usize) -> (r: usize)
    requires
        start <= line@.len(),
    ensures
        r == spec_skip_ws(line@, start as int),
        start <= r <= line@.len(),
{
    let n = line.unicode_len();
    let mut i = start;
    while i < n && is_ws_char(line.get_char(i))
        invariant
            start <= i <= n,
            n == line@.len(),
            spec_skip_ws(line@, start as int) == spec_skip_ws(line@, i as int),
        decreases n - i,
    {
        i = i + 1;
    }
    i
}

fn skip_word(line: &str, start: usize) -> (r: usize)
    requires
        start <= line@.len(),
    ensures
        r == spec_skip_word(line@, start as int),
        start <= r <= line@.len(),
{
    let n = line.unicode_len();
    let mut i = start;
    while i < n && !is_ws_char(line.get_char(i))
        invariant
            start <= i <= n,
            n == line@.len(),
            spec_skip_word(line@, start as int) == spec_skip_word(line@, i as int),
        decreases n - i,
    {
        i = i + 1;
    }
    i
}

/// The line's second whitespace-separated token — the payload slot of
/// `bestmove <move>` and `Fen: <board>` lines.
pub fn second_token(line: &str) -> (r: Option<String>)
    ensures
        ({
            match (r, spec_second_token(line@)) {
                (Some(t), Some(st)) => t@ == st,
                (None, None) => true,
                _ => false,
            }
        }),
{
    let a = skip_ws(line, 0);
    let b = skip_word(line, a);
    let c = skip_ws(line, b);
    let d = skip_word(line, c);
    if c < line.unicode_len() {
        Some(line.substring_char(c, d).to_owned())
    } else {
        None
    }
}

fn starts_with_prefix(line: &str, prefix: &str) -> (b: bool)
    ensures
        b == spec_starts_with(line@, prefix@),
{
    let pn = prefix.unicode_len();
    if line.unicode_len() < pn {
        return false;
    }
    let mut j: usize = 0;
    while j < pn
        invariant
            j <= pn,
            pn == prefix@.len(),
            pn <= line@.len(),
            forall|k: int| 0 <= k < j as int ==> line@[k] == prefix@[k],
        decreases pn - j,
    {
        if line.get_char(j) != prefix.get_char(j) {
            proof {
                assert(line@.subrange(0, pn as int)[j as int] != prefix@[j as int]);
            }
            return false;
        }
        j = j + 1;
    }
    proof {
        assert(line@.subrange(0, pn as int) =~= prefix@);
    }
    true
}

/// The move in a `bestmove` report: `Some` exactly when the line opens with
/// `bestmove` and carries a second token, which is the move.
pub fn parse_bestmove_line(line: &str) -> (r: Option<String>)
    ensures
        ({
            match r {
                Some(t) => spec_starts_with(line@, "bestmove"@) && match spec_second_token(
                    line@,
                ) {
                    Some(st) => t@ == st,
                    None => false,
                },
                None => !spec_starts_with(line@, "bestmove"@) || spec_second_token(line@) is None,
            }
        }),
{
    if !starts_with_prefix(line, "bestmove") {
        return None;
    }
    second_token(line)
}

/// The board field of the engine's position display: `Some` exactly when
/// the line opens with `Fen: ` and carries a second token, which is the
/// board string (the display's later fields follow in later tokens).
pub fn parse_fen_line(line: &str) -> (r: Option<String>)
    ensures
        ({
            match r {
                Some(t) => spec_starts_with(line@, "Fen: "@) && match spec_second_token(line@) {
                    Some(st) => t@ == st,
                    None => false,
                },
                None => !spec_starts_with(line@, "Fen: "@) || spec_second_token(line@) is None,
            }
        }),
{
    if !starts_with_prefix(line, "Fen: ") {
        return None;
    }
    second_token(line)
}

/// The digit character of `n`, `0 <= n <= 9`.
pub open spec fn spec_digit10(n: int) -> char {
    if n == 0 {
        '0'
    } else if n == 1 {
        '1'
    } else if n == 2 {
        '2'
    } else if n == 3 {
        '3'
    } else if n == 4 {
        '4'
    } else if n == 5 {
        '5'
    } else if n == 6 {
        '6'
    } else if n == 7 {
        '7'
    } else if n == 8 {
        '8'
    } else {
        '9'
    }
}

/// `n` written in decimal, no sign, no leading zero except for zero itself.
pub open spec fn spec_decimal(n: int) -> Seq<char>
    decreases n,
{
    if n < 10 {
        seq![spec_digit10(n)]
    } else {
        spec_decimal(n / 10) + seq![spec_digit10(n % 10)]
    }
}

fn digit10_str(n: u32) -> (s: &'static str)
    requires
        n <= 9,
    ensures
        s@ == seq![spec_digit10(n as int)],
{
    proof {
        reveal_strlit("0");
        reveal_strlit("1");
        reveal_strlit("2");
        reveal_strlit("3");
        reveal_strlit("4");
        reveal_strlit("5");
        reveal_strlit("6");
        reveal_strlit("7");
        reveal_strlit("8");
        reveal_strlit("9");
    }
    let s = match n {
        0 => "0",
        1 => "1",
        2 => "2",
        3 => "3",
        4 => "4",
        5 => "5",
        6 => "6",
        7 => "7",
        8 => "8",
        _ => "9",
    };
    proof {
        assert(s@ =~= seq![spec_digit10(n as int)]);
    }
    s
}

/// `n` in decimal digits.
pub fn u32_to_string(n: u32) -> (r: String)
    ensures
        r@ == spec_decimal(n as int),
    decreases n,
{
    if n < 10 {
        digit10_str(n).to_owned()
    } else {
        let mut r = u32_to_string(n / 10);
        r.append(digit10_str(n % 10));
        r
    }
}

/// The engine command that sets a full position.
pub fn cmd_set_position(fen: &str) -> (r: String)
    ensures
        r@ == "position fen "@ + fen@,
{
    let mut r = "position fen ".to_owned();
    r.append(fen);
    r
}

/// The engine command that starts a fixed-depth search.
pub fn cmd_go_depth(depth: u32) -> (r: String)
    ensures
        r@ == "go depth "@ + spec_decimal(depth as int),
{
    let mut r = "go depth ".to_owned();
    let d = u32_to_string(depth);
    r.append(d.as_str());
    r
}

/// The engine command that replays a move on a position, so the engine can
/// then display the resulting board.
pub fn cmd_set_position_with_move(fen: &str, mv: &str) -> (r: String)
    ensures
        r@ == "position fen "@ + fen@ + " moves "@ + mv@,
{
    let mut r = "position fen ".to_owned();
    r.append(fen);
    r.append(" moves ");
    r.append(mv);
    r
}

/// Where the engine binary is looked for when no path is configured.
pub fn default_stockfish_path() -> (r: &'static str)
    ensures
        r@ == "stockfish"@,
{
    "stockfish"
}

} // verus!
