use vstd::prelude::*;

verus! {

/// Unicode White_Space, the characters Rust's `char::is_whitespace` accepts.
pub open spec fn is_ws(c: char) -> bool {
    ('\u{9}' <= c && c <= '\u{d}') || c == ' ' || c == '\u{85}' || c == '\u{a0}' || c == '\u{1680}'
        || ('\u{2000}' <= c && c <= '\u{200a}') || c == '\u{2028}' || c == '\u{2029}' || c == '\u{202f}'
        || c == '\u{205f}' || c == '\u{3000}'
}

fn is_ws_exec(c: char) -> (r: bool)
    ensures
        r == is_ws(c),
{
    ('\u{9}' <= c && c <= '\u{d}') || c == ' ' || c == '\u{85}' || c == '\u{a0}' || c == '\u{1680}'
        || ('\u{2000}' <= c && c <= '\u{200a}') || c == '\u{2028}' || c == '\u{2029}' || c == '\u{202f}'
        || c == '\u{205f}' || c == '\u{3000}'
}

pub open spec fn trim_start_spec(s: Seq<char>) -> Seq<char>
    decreases s.len(),
{
    if s.len() > 0 && is_ws(s[0]) {
        trim_start_spec(s.drop_first())
    } else {
        s
    }
}

pub open spec fn trim_end_spec(s: Seq<char>) -> Seq<char>
    decreases s.len(),
{
    if s.len() > 0 && is_ws(s.last()) {
        trim_end_spec(s.drop_last())
    } else {
        s
    }
}

/// The text without its leading and trailing whitespace.
pub open spec fn trim_spec(s: Seq<char>) -> Seq<char> {
    trim_end_spec(trim_start_spec(s))
}

/// The pieces of a text between line feeds (one more than there are line
/// feeds).
pub open spec fn split_lines_spec(s: Seq<char>) -> Seq<Seq<char>>
    decreases s.len(),
{
    if s.len() == 0 {
        seq![Seq::<char>::empty()]
    } else if s.last() == '\n' {
        split_lines_spec(s.drop_last()).push(Seq::<char>::empty())
    } else {
        let p = split_lines_spec(s.drop_last());
        p.update(p.len() - 1, p.last().push(s.last()))
    }
}

/// Each piece trimmed, the empty ones left out.
pub open spec fn nonblank_trimmed(pieces: Seq<Seq<char>>) -> Seq<Seq<char>>
    decreases pieces.len(),
{
    if pieces.len() == 0 {
        Seq::empty()
    } else if trim_spec(pieces.last()).len() > 0 {
        nonblank_trimmed(pieces.drop_last()).push(trim_spec(pieces.last()))
    } else {
        nonblank_trimmed(pieces.drop_last())
    }
}

/// The reply the server gives when nobody is online.
pub open spec fn no_players_spec() -> Seq<char> {
    "No Players Connected"@
}

/// Players listed in a reply to the player-list command: none for the
/// no-players reply, else one per non-blank line, trimmed.
pub open spec fn players_spec(response: Seq<char>) -> Seq<Seq<char>> {
    if trim_spec(response) == no_players_spec() {
        Seq::empty()
    } else {
        nonblank_trimmed(split_lines_spec(response))
    }
}

proof fn lemma_trim_start_skips(s: Seq<char>, a: int)
    requires
        0 <= a <= s.len(),
        forall|k: int| 0 <= k < a ==> is_ws(s[k]),
        a == s.len() || !is_ws(s[a]),
    ensures
        trim_start_spec(s) == s.subrange(a, s.len() as int),
    decreases a,
{
    if a == 0 {
        assert(s.subrange(0, s.len() as int) =~= s);
    } else {
        let t = s.drop_first();
        assert forall|k: int| 0 <= k < a - 1 implies is_ws(t[k]) by {
            assert(t[k] == s[k + 1]);
        }
        if a - 1 < t.len() {
            assert(t[a - 1] == s[a]);
        }
        lemma_trim_start_skips(t, a - 1);
        assert(t.subrange(a - 1, t.len() as int) =~= s.subrange(a, s.len() as int));
    }
}

proof fn lemma_trim_end_skips(s: Seq<char>, b: int)
    requires
        0 <= b <= s.len(),
        forall|k: int| b <= k < s.len() ==> is_ws(s[k]),
        b == 0 || !is_ws(s[b - 1]),
    ensures
        trim_end_spec(s) == s.subrange(0, b),
    decreases s.len() - b,
{
    if b == s.len() {
        assert(s.subrange(0, b) =~= s);
    } else {
        let t = s.drop_last();
        assert forall|k: int| b <= k < t.len() implies is_ws(t[k]) by {
            assert(t[k] == s[k]);
        }
        if b > 0 {
            assert(t[b - 1] == s[b - 1]);
        }
        lemma_trim_end_skips(t, b);
        assert(t.subrange(0, b) =~= s.subrange(0, b));
    }
}

/// The text without its leading and trailing whitespace.
pub fn trim_text(s: &str) -> (r: String)
    ensures
        r@ == trim_spec(s@),
{
    let n = s.unicode_len();
    let mut a: usize = 0;
    while a < n && is_ws_exec(s.get_char(a))
        invariant
            n == s@.len(),
            a <= n,
            forall|k: int| 0 <= k < a ==> is_ws(s@[k]),
        decreases n - a,
    {
        a = a + 1;
    }
    let mut b: usize = n;
    while b > a && is_ws_exec(s.get_char(b - 1))
        invariant
            n == s@.len(),
            a <= b <= n,
            forall|k: int| b <= k < n ==> is_ws(s@[k]),
        decreases b,
    {
        b = b - 1;
    }
    proof {
        lemma_trim_start_skips(s@, a as int);
        let t = s@.subrange(a as int, n as int);
        assert forall|k: int| (b - a) <= k < t.len() implies is_ws(t[k]) by {
            assert(t[k] == s@[a + k]);
        }
        if b > a {
            assert(t[b - a - 1] == s@[b - 1]);
        }
        lemma_trim_end_skips(t, (b - a) as int);
        assert(t.subrange(0, (b - a) as int) =~= s@.subrange(a as int, b as int));
    }
    String::from_str(s.substring_char(a, b))
}

/// Failures of one remote-console exchange.
#[derive(Debug, Clone, Copy, PartialEq, Eq, Structural)]
pub enum RconError {
    /// No connection could be opened, or it broke during the exchange.
    ConnectFailed,
    /// The server refused the password.
    AuthFailed,
    /// No reply came before the deadline.
    Timeout,
}

/// The remote-console client's text side: the commands it sends and how it
/// reads the replies. Connections belong to the embedding application.
pub struct RconClient;

impl RconClient {
    /// The command that lists online players, also used as liveness probe.
    pub fn list_players_command() -> (r: String)
        ensures
            r@ == "ListPlayers"@,
    {
        String::from_str("ListPlayers")
    }

    /// Reads a reply to the player-list command.
    pub fn parse_players(response: &str) -> (r: Vec<String>)
        ensures
            r@.map_values(|p: String| p@) == players_spec(response@),
    {
        let whole = trim_text(response);
        if whole == String::from_str("No Players Connected") {
            return Vec::new();
        }
        let n = response.unicode_len();
        let mut players: Vec<String> = Vec::new();
        let mut start: usize = 0;
        let mut j: usize = 0;
        let ghost done: Seq<Seq<char>> = Seq::empty();
        proof {
            assert(response@.subrange(0, 0) =~= Seq::<char>::empty());
            assert(split_lines_spec(Seq::<char>::empty()) =~= done.push(response@.subrange(0, 0)));
        }
        while j < n
            invariant
                n == response@.len(),
                start <= j <= n,
                split_lines_spec(response@.subrange(0, j as int))
                    == done.push(response@.subrange(start as int, j as int)),
                players@.map_values(|p: String| p@) == nonblank_trimmed(done),
            decreases n - j,
        {
            let c = response.get_char(j);
            let ghost pre = response@.subrange(0, j + 1);
            proof {
                assert(pre.drop_last() =~= response@.subrange(0, j as int));
                assert(pre.last() == c);
            }
            if c == '\n' {
                let piece = trim_text(response.substring_char(start, j));
                let ghost seg = response@.subrange(start as int, j as int);
                if piece.as_str().unicode_len() > 0 {
                    let ghost prev = players@;
                    players.push(piece);
                    assert(players@.map_values(|p: String| p@) =~= prev.map_values(|p: String| p@).push(piece@));
                }
                proof {
                    assert(nonblank_trimmed(done.push(seg)).len() >= 0);
                    assert(done.push(seg).drop_last() =~= done);
                    done = done.push(seg);
                    assert(response@.subrange(j + 1, j + 1) =~= Seq::<char>::empty());
                }
                start = j + 1;
            } else {
                proof {
                    let p = split_lines_spec(response@.subrange(0, j as int));
                    assert(response@.subrange(start as int, j + 1) =~= response@.subrange(start as int, j as int).push(c));
                    assert(p.update(p.len() - 1, p.last().push(c)) =~= done.push(response@.subrange(start as int, j + 1)));
                }
            }
            j = j + 1;
        }
        let piece = trim_text(response.substring_char(start, n));
        let ghost seg = response@.subrange(start as int, n as int);
        proof {
            assert(response@.subrange(0, n as int) =~= response@);
            assert(done.push(seg).drop_last() =~= done);
        }
        if piece.as_str().unicode_len() > 0 {
            let ghost prev = players@;
            players.push(piece);
            assert(players@.map_values(|p: String| p@) =~= prev.map_values(|p: String| p@).push(piece@));
        }
        players
    }
}

} // verus!
