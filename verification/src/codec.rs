//! The wire codec: commands and replies as canonical JSON.
//!
//! One message per connection, a tagged union in the usual JSON shape — a
//! bare string for a unit variant, `{"Tag":payload}` otherwise. The
//! encoder always writes the canonical form (no whitespace, no leading
//! zeros, lowercase hex in escapes) and the decoder accepts exactly the
//! canonical form, so the two are inverses: see the round-trip lemmas at
//! the end.

use vstd::prelude::*;

use crate::protocol::{Command, CommandView, Reply, ReplyView};
use crate::text::{dec_digit, dec_of, match_at};

verus! {

// ---------------------------------------------------------------------
// Encoding, primitives
// ---------------------------------------------------------------------

/// A unit variant on the wire: the tag as a JSON string.
pub open spec fn quoted(tag: Seq<char>) -> Seq<char> {
    seq!['"'] + tag + seq!['"']
}

/// What opens a payload variant on the wire: `{"Tag":`.
pub open spec fn obj_head(tag: Seq<char>) -> Seq<char> {
    seq!['{', '"'] + tag + seq!['"', ':']
}

/// A payload variant on the wire: `{"Tag":payload}`.
pub open spec fn wrap_obj(tag: Seq<char>, payload: Seq<char>) -> Seq<char> {
    obj_head(tag) + payload + seq!['}']
}

/// The lowercase hex digit character for a value below sixteen.
pub open spec fn hex_digit(d: nat) -> char
    recommends
        d < 16,
{
    if d < 10 {
        ((48 + d) as u8) as char
    } else {
        ((87 + d) as u8) as char
    }
}

/// How one character is written inside a JSON string: quotes and
/// backslashes get a backslash, control characters become `\u00xx`,
/// everything else stands for itself.
pub open spec fn esc_char(c: char) -> Seq<char> {
    if c == '"' {
        seq!['\\', '"']
    } else if c == '\\' {
        seq!['\\', '\\']
    } else if (c as u32) < 32 {
        seq!['\\', 'u', '0', '0', hex_digit((c as u32 / 16) as nat), hex_digit(
            (c as u32 % 16) as nat,
        )]
    } else {
        seq![c]
    }
}

/// A string's characters, each escaped.
pub open spec fn esc(s: Seq<char>) -> Seq<char>
    decreases s.len(),
{
    if s.len() == 0 {
        Seq::empty()
    } else {
        esc_char(s[0]) + esc(s.drop_first())
    }
}

/// A JSON string: quotes around the escaped characters.
pub open spec fn enc_str(s: Seq<char>) -> Seq<char> {
    seq!['"'] + esc(s) + seq!['"']
}

/// A JSON boolean.
pub open spec fn enc_bool(b: bool) -> Seq<char> {
    if b {
        seq!['t', 'r', 'u', 'e']
    } else {
        seq!['f', 'a', 'l', 's', 'e']
    }
}

/// The rest of a non-empty JSON list of numbers: `,n` repeated, then `]`.
pub open spec fn enc_num_tail(l: Seq<usize>) -> Seq<char>
    decreases l.len(),
{
    if l.len() == 0 {
        seq![']']
    } else {
        seq![','] + dec_of(l[0] as nat) + enc_num_tail(l.drop_first())
    }
}

/// A JSON list of numbers.
pub open spec fn enc_num_list(l: Seq<usize>) -> Seq<char> {
    if l.len() == 0 {
        seq!['[', ']']
    } else {
        seq!['['] + dec_of(l[0] as nat) + enc_num_tail(l.drop_first())
    }
}

/// The rest of a non-empty JSON list of strings.
pub open spec fn enc_str_tail(l: Seq<Seq<char>>) -> Seq<char>
    decreases l.len(),
{
    if l.len() == 0 {
        seq![']']
    } else {
        seq![','] + enc_str(l[0]) + enc_str_tail(l.drop_first())
    }
}

/// A JSON list of strings.
pub open spec fn enc_str_list(l: Seq<Seq<char>>) -> Seq<char> {
    if l.len() == 0 {
        seq!['[', ']']
    } else {
        seq!['['] + enc_str(l[0]) + enc_str_tail(l.drop_first())
    }
}

// ---------------------------------------------------------------------
// Parsing, primitives
// ---------------------------------------------------------------------

/// A decimal digit character.
pub open spec fn is_digit(c: char) -> bool {
    48 <= c as u32 <= 57
}

/// Its value.
pub open spec fn digit_val(c: char) -> nat {
    (c as u32 - 48) as nat
}

/// The value of a lowercase-hex digit character, if it is one.
pub open spec fn hex_val(c: char) -> Option<nat> {
    if is_digit(c) {
        Some(digit_val(c))
    } else if 97 <= c as u32 <= 102 {
        Some((c as u32 - 87) as nat)
    } else {
        None
    }
}

/// Consumes digits greedily from `i`, folding them onto `acc`; refuses a
/// value that does not fit the machine word.
pub open spec fn p_num_loop(s: Seq<char>, i: int, acc: nat) -> Option<(nat, int)>
    decreases s.len() - i,
{
    if 0 <= i < s.len() && is_digit(s[i]) {
        if acc * 10 + digit_val(s[i]) > usize::MAX as nat {
            None
        } else {
            p_num_loop(s, i + 1, acc * 10 + digit_val(s[i]))
        }
    } else {
        Some((acc, i))
    }
}

/// A JSON number at `i`: at least one digit, no leading zero, fitting
/// the machine word.
pub open spec fn p_num(s: Seq<char>, i: int) -> Option<(nat, int)> {
    if 0 <= i < s.len() && is_digit(s[i]) {
        if s[i] == '0' && i + 1 < s.len() && is_digit(s[i + 1]) {
            None
        } else {
            p_num_loop(s, i, 0)
        }
    } else {
        None
    }
}

/// The inside of a JSON string from `i` to its closing quote, the
/// characters decoded onto `acc`. Only canonical escapes are accepted:
/// `\"`, `\\`, and `\u00xx` with lowercase hex for a control character.
pub open spec fn p_str_body(s: Seq<char>, i: int, acc: Seq<char>) -> Option<(Seq<char>, int)>
    decreases s.len() - i,
{
    if !(0 <= i < s.len()) {
        None
    } else if s[i] == '"' {
        Some((acc, i + 1))
    } else if s[i] == '\\' {
        if i + 1 < s.len() && s[i + 1] == '"' {
            p_str_body(s, i + 2, acc.push('"'))
        } else if i + 1 < s.len() && s[i + 1] == '\\' {
            p_str_body(s, i + 2, acc.push('\\'))
        } else if i + 5 < s.len() && s[i + 1] == 'u' && s[i + 2] == '0' && s[i + 3] == '0'
            && hex_val(s[i + 4]) is Some && hex_val(s[i + 5]) is Some && hex_val(
            s[i + 4],
        ).unwrap() * 16 + hex_val(s[i + 5]).unwrap() < 32 {
            p_str_body(
                s,
                i + 6,
                acc.push(
                    (((hex_val(s[i + 4]).unwrap() * 16 + hex_val(s[i + 5]).unwrap()) as u8) as char),
                ),
            )
        } else {
            None
        }
    } else if (s[i] as u32) >= 32 {
        p_str_body(s, i + 1, acc.push(s[i]))
    } else {
        None
    }
}

/// A JSON string at `i`.
pub open spec fn p_str(s: Seq<char>, i: int) -> Option<(Seq<char>, int)> {
    if 0 <= i < s.len() && s[i] == '"' {
        p_str_body(s, i + 1, Seq::empty())
    } else {
        None
    }
}

/// A JSON boolean at `i`.
pub open spec fn p_bool(s: Seq<char>, i: int) -> Option<(bool, int)> {
    if match_at(s, i, seq!['t', 'r', 'u', 'e']) {
        Some((true, i + 4))
    } else if match_at(s, i, seq!['f', 'a', 'l', 's', 'e']) {
        Some((false, i + 5))
    } else {
        None
    }
}

/// After the first element of a number list: `,n` repeated until `]`.
/// `fuel` bounds the elements still allowed; callers pass the input
/// length, which no element count can reach.
pub open spec fn p_num_tail(s: Seq<char>, i: int, acc: Seq<usize>, fuel: nat) -> Option<
    (Seq<usize>, int),
>
    decreases fuel,
{
    if !(0 <= i < s.len()) {
        None
    } else if s[i] == ']' {
        Some((acc, i + 1))
    } else if s[i] == ',' && fuel > 0 {
        match p_num(s, i + 1) {
            Some((n, j)) => p_num_tail(s, j, acc.push(n as usize), (fuel - 1) as nat),
            None => None,
        }
    } else {
        None
    }
}

/// A JSON list of numbers at `i`.
pub open spec fn p_num_list(s: Seq<char>, i: int) -> Option<(Seq<usize>, int)> {
    if !(0 <= i < s.len() && s[i] == '[') {
        None
    } else if i + 1 < s.len() && s[i + 1] == ']' {
        Some((Seq::empty(), i + 2))
    } else {
        match p_num(s, i + 1) {
            Some((n, j)) => p_num_tail(s, j, seq![n as usize], s.len() as nat),
            None => None,
        }
    }
}

/// After the first element of a string list: `,"…"` repeated until `]`.
pub open spec fn p_str_tail(s: Seq<char>, i: int, acc: Seq<Seq<char>>, fuel: nat) -> Option<
    (Seq<Seq<char>>, int),
>
    decreases fuel,
{
    if !(0 <= i < s.len()) {
        None
    } else if s[i] == ']' {
        Some((acc, i + 1))
    } else if s[i] == ',' && fuel > 0 {
        match p_str(s, i + 1) {
            Some((q, j)) => p_str_tail(s, j, acc.push(q), (fuel - 1) as nat),
            None => None,
        }
    } else {
        None
    }
}

/// A JSON list of strings at `i`.
pub open spec fn p_str_list(s: Seq<char>, i: int) -> Option<(Seq<Seq<char>>, int)> {
    if !(0 <= i < s.len() && s[i] == '[') {
        None
    } else if i + 1 < s.len() && s[i + 1] == ']' {
        Some((Seq::empty(), i + 2))
    } else {
        match p_str(s, i + 1) {
            Some((q, j)) => p_str_tail(s, j, seq![q], s.len() as nat),
            None => None,
        }
    }
}

// ---------------------------------------------------------------------
// Messages
// ---------------------------------------------------------------------

pub open spec fn t_play() -> Seq<char> {
    seq!['P', 'l', 'a', 'y']
}

pub open spec fn t_pause() -> Seq<char> {
    seq!['P', 'a', 'u', 's', 'e']
}

pub open spec fn t_toggle() -> Seq<char> {
    seq!['T', 'o', 'g', 'g', 'l', 'e']
}

pub open spec fn t_next() -> Seq<char> {
    seq!['N', 'e', 'x', 't']
}

pub open spec fn t_prev() -> Seq<char> {
    seq!['P', 'r', 'e', 'v']
}

pub open spec fn t_stop() -> Seq<char> {
    seq!['S', 't', 'o', 'p']
}

pub open spec fn t_clear() -> Seq<char> {
    seq!['C', 'l', 'e', 'a', 'r']
}

pub open spec fn t_statusreq() -> Seq<char> {
    seq!['S', 't', 'a', 't', 'u', 's', 'R', 'e', 'q']
}

pub open spec fn t_add() -> Seq<char> {
    seq!['A', 'd', 'd']
}

pub open spec fn t_addmany() -> Seq<char> {
    seq!['A', 'd', 'd', 'M', 'a', 'n', 'y']
}

pub open spec fn t_addnext() -> Seq<char> {
    seq!['A', 'd', 'd', 'N', 'e', 'x', 't']
}

pub open spec fn t_addsearch() -> Seq<char> {
    seq!['A', 'd', 'd', 'S', 'e', 'a', 'r', 'c', 'h']
}

pub open spec fn t_addnextsearch() -> Seq<char> {
    seq!['A', 'd', 'd', 'N', 'e', 'x', 't', 'S', 'e', 'a', 'r', 'c', 'h']
}

pub open spec fn t_search() -> Seq<char> {
    seq!['S', 'e', 'a', 'r', 'c', 'h']
}

pub open spec fn t_status() -> Seq<char> {
    seq!['S', 't', 'a', 't', 'u', 's']
}

pub open spec fn t_none() -> Seq<char> {
    seq!['N', 'o', 'n', 'e']
}

pub open spec fn t_other() -> Seq<char> {
    seq!['O', 't', 'h', 'e', 'r']
}

pub open spec fn t_albums() -> Seq<char> {
    seq!['a', 'l', 'b', 'u', 'm', 's']
}

pub open spec fn t_artists() -> Seq<char> {
    seq!['a', 'r', 't', 'i', 's', 't', 's']
}

pub open spec fn t_songs() -> Seq<char> {
    seq!['s', 'o', 'n', 'g', 's']
}

/// The search command's payload: query, the three facet switches, page
/// size, as a JSON array.
pub open spec fn enc_search_payload(
    q: Seq<char>,
    ar: bool,
    al: bool,
    so: bool,
    n: usize,
) -> Seq<char> {
    seq!['['] + enc_str(q) + seq![','] + enc_bool(ar) + seq![','] + enc_bool(al) + seq![',']
        + enc_bool(so) + seq![','] + dec_of(n as nat) + seq![']']
}

/// The search reply's payload: the three rendered facet lists as a JSON
/// object, keys in canonical order.
pub open spec fn enc_reply_search_payload(
    albums: Seq<Seq<char>>,
    artists: Seq<Seq<char>>,
    songs: Seq<Seq<char>>,
) -> Seq<char> {
    seq!['{'] + quoted(t_albums()) + seq![':'] + enc_str_list(albums) + seq![','] + quoted(
        t_artists(),
    ) + seq![':'] + enc_str_list(artists) + seq![','] + quoted(t_songs()) + seq![':']
        + enc_str_list(songs) + seq!['}']
}

/// A command on the wire.
pub open spec fn enc_cmd(c: CommandView) -> Seq<char> {
    match c {
        CommandView::Play => quoted(t_play()),
        CommandView::Pause => quoted(t_pause()),
        CommandView::Toggle => quoted(t_toggle()),
        CommandView::Next => quoted(t_next()),
        CommandView::Prev => quoted(t_prev()),
        CommandView::Stop => quoted(t_stop()),
        CommandView::Clear => quoted(t_clear()),
        CommandView::StatusReq => quoted(t_statusreq()),
        CommandView::Add(n) => wrap_obj(t_add(), dec_of(n as nat)),
        CommandView::AddMany(l) => wrap_obj(t_addmany(), enc_num_list(l)),
        CommandView::AddNext(n) => wrap_obj(t_addnext(), dec_of(n as nat)),
        CommandView::AddSearch(q) => wrap_obj(t_addsearch(), enc_str(q)),
        CommandView::AddNextSearch(q) => wrap_obj(t_addnextsearch(), enc_str(q)),
        CommandView::Search(q, ar, al, so, n) => wrap_obj(
            t_search(),
            enc_search_payload(q, ar, al, so, n),
        ),
        CommandView::Status(t) => wrap_obj(t_status(), enc_str(t)),
    }
}

/// A reply on the wire.
pub open spec fn enc_reply(r: ReplyView) -> Seq<char> {
    match r {
        ReplyView::Empty => quoted(t_none()),
        ReplyView::Other(t) => wrap_obj(t_other(), enc_str(t)),
        ReplyView::Search { albums, artists, songs } => wrap_obj(
            t_search(),
            enc_reply_search_payload(albums, artists, songs),
        ),
    }
}

/// The search command's payload parser.
#[verifier::opaque]
pub open spec fn p_search_payload(s: Seq<char>, i: int) -> Option<
    ((Seq<char>, bool, bool, bool, usize), int),
> {
    if !(0 <= i < s.len() && s[i] == '[') {
        None
    } else {
        match p_str(s, i + 1) {
            None => None,
            Some((q, j1)) => if !(j1 < s.len() && s[j1] == ',') {
                None
            } else {
                match p_bool(s, j1 + 1) {
                    None => None,
                    Some((ar, j2)) => if !(j2 < s.len() && s[j2] == ',') {
                        None
                    } else {
                        match p_bool(s, j2 + 1) {
                            None => None,
                            Some((al, j3)) => if !(j3 < s.len() && s[j3] == ',') {
                                None
                            } else {
                                match p_bool(s, j3 + 1) {
                                    None => None,
                                    Some((so, j4)) => if !(j4 < s.len() && s[j4] == ',') {
                                        None
                                    } else {
                                        match p_num(s, j4 + 1) {
                                            None => None,
                                            Some((n, j5)) => if j5 < s.len() && s[j5] == ']' {
                                                Some(((q, ar, al, so, n as usize), j5 + 1))
                                            } else {
                                                None
                                            },
                                        }
                                    },
                                }
                            },
                        }
                    },
                }
            },
        }
    }
}

/// The search reply's payload parser.
#[verifier::opaque]
pub open spec fn p_reply_search_payload(s: Seq<char>, i: int) -> Option<
    ((Seq<Seq<char>>, Seq<Seq<char>>, Seq<Seq<char>>), int),
> {
    if !(0 <= i < s.len() && s[i] == '{' && match_at(s, i + 1, quoted(t_albums()) + seq![':'])) {
        None
    } else {
        match p_str_list(s, i + 10) {
            None => None,
            Some((albums, j1)) => if !(j1 < s.len() && s[j1] == ',' && match_at(
                s,
                j1 + 1,
                quoted(t_artists()) + seq![':'],
            )) {
                None
            } else {
                match p_str_list(s, j1 + 11) {
                    None => None,
                    Some((artists, j2)) => if !(j2 < s.len() && s[j2] == ',' && match_at(
                        s,
                        j2 + 1,
                        quoted(t_songs()) + seq![':'],
                    )) {
                        None
                    } else {
                        match p_str_list(s, j2 + 9) {
                            None => None,
                            Some((songs, j3)) => if j3 < s.len() && s[j3] == '}' {
                                Some(((albums, artists, songs), j3 + 1))
                            } else {
                                None
                            },
                        }
                    },
                }
            },
        }
    }
}

/// Parses the payload of an object-shaped message and requires it to end
/// the input: the closing brace and nothing after.
pub open spec fn obj_end(s: Seq<char>, j: int) -> bool {
    j + 1 == s.len() && 0 <= j < s.len() && s[j] == '}'
}

/// A whole-input command parse: `None` unless the input is exactly one
/// canonically encoded command.
pub open spec fn dec_cmd(s: Seq<char>) -> Option<CommandView> {
    if s.len() == 0 {
        None
    } else if s[0] == '"' {
        if s == quoted(t_play()) {
            Some(CommandView::Play)
        } else if s == quoted(t_pause()) {
            Some(CommandView::Pause)
        } else if s == quoted(t_toggle()) {
            Some(CommandView::Toggle)
        } else if s == quoted(t_next()) {
            Some(CommandView::Next)
        } else if s == quoted(t_prev()) {
            Some(CommandView::Prev)
        } else if s == quoted(t_stop()) {
            Some(CommandView::Stop)
        } else if s == quoted(t_clear()) {
            Some(CommandView::Clear)
        } else if s == quoted(t_statusreq()) {
            Some(CommandView::StatusReq)
        } else {
            None
        }
    } else if s[0] == '{' {
        if match_at(s, 0, obj_head(t_addnextsearch())) {
            match p_str(s, 17) {
                Some((q, j)) => if obj_end(s, j) {
                    Some(CommandView::AddNextSearch(q))
                } else {
                    None
                },
                None => None,
            }
        } else if match_at(s, 0, obj_head(t_addsearch())) {
            match p_str(s, 13) {
                Some((q, j)) => if obj_end(s, j) {
                    Some(CommandView::AddSearch(q))
                } else {
                    None
                },
                None => None,
            }
        } else if match_at(s, 0, obj_head(t_addmany())) {
            match p_num_list(s, 11) {
                Some((l, j)) => if obj_end(s, j) {
                    Some(CommandView::AddMany(l))
                } else {
                    None
                },
                None => None,
            }
        } else if match_at(s, 0, obj_head(t_addnext())) {
            match p_num(s, 11) {
                Some((n, j)) => if obj_end(s, j) {
                    Some(CommandView::AddNext(n as usize))
                } else {
                    None
                },
                None => None,
            }
        } else if match_at(s, 0, obj_head(t_add())) {
            match p_num(s, 7) {
                Some((n, j)) => if obj_end(s, j) {
                    Some(CommandView::Add(n as usize))
                } else {
                    None
                },
                None => None,
            }
        } else if match_at(s, 0, obj_head(t_search())) {
            match p_search_payload(s, 10) {
                Some(((q, ar, al, so, n), j)) => if obj_end(s, j) {
                    Some(CommandView::Search(q, ar, al, so, n))
                } else {
                    None
                },
                None => None,
            }
        } else if match_at(s, 0, obj_head(t_status())) {
            match p_str(s, 10) {
                Some((t, j)) => if obj_end(s, j) {
                    Some(CommandView::Status(t))
                } else {
                    None
                },
                None => None,
            }
        } else {
            None
        }
    } else {
        None
    }
}

/// A whole-input reply parse: `None` unless the input is exactly one
/// canonically encoded reply.
pub open spec fn dec_reply(s: Seq<char>) -> Option<ReplyView> {
    if s.len() == 0 {
        None
    } else if s[0] == '"' {
        if s == quoted(t_none()) {
            Some(ReplyView::Empty)
        } else {
            None
        }
    } else if s[0] == '{' {
        if match_at(s, 0, obj_head(t_other())) {
            match p_str(s, 9) {
                Some((t, j)) => if obj_end(s, j) {
                    Some(ReplyView::Other(t))
                } else {
                    None
                },
                None => None,
            }
        } else if match_at(s, 0, obj_head(t_search())) {
            match p_reply_search_payload(s, 10) {
                Some(((albums, artists, songs), j)) => if obj_end(s, j) {
                    Some(ReplyView::Search { albums, artists, songs })
                } else {
                    None
                },
                None => None,
            }
        } else {
            None
        }
    } else {
        None
    }
}

// ---------------------------------------------------------------------
// Round-trip groundwork
// ---------------------------------------------------------------------

/// A pattern made of two parts matches exactly when each part matches in
/// place.
pub proof fn lemma_match_split(s: Seq<char>, i: int, a: Seq<char>, b: Seq<char>)
    ensures
        match_at(s, i, a + b) <==> (match_at(s, i, a) && match_at(s, i + a.len(), b)),
{
    if match_at(s, i, a + b) {
        assert forall|k: int| 0 <= k < a.len() implies #[trigger] a[k] == s[i + k] by {
            assert((a + b)[k] == s[i + k]);
        }
        assert forall|k: int| 0 <= k < b.len() implies #[trigger] b[k] == s[i + a.len() + k] by {
            assert((a + b)[a.len() + k] == s[i + a.len() + k]);
        }
    }
    if match_at(s, i, a) && match_at(s, i + a.len(), b) {
        assert forall|k: int| 0 <= k < (a + b).len() implies #[trigger] (a + b)[k] == s[i + k] by {
            if k < a.len() {
                assert(a[k] == s[i + k]);
            } else {
                assert(b[k - a.len()] == s[i + a.len() + (k - a.len())]);
            }
        }
    }
}

/// Matching a whole-input pattern is the same as being that pattern.
pub proof fn lemma_match_whole(s: Seq<char>, p: Seq<char>)
    ensures
        (s == p) <==> (s.len() == p.len() && match_at(s, 0, p)),
{
    if s.len() == p.len() && match_at(s, 0, p) {
        assert(s =~= p);
    }
    if s == p {
        assert(forall|k: int| 0 <= k < p.len() ==> #[trigger] p[k] == s[0 + k]);
    }
}

/// Powers of ten.
pub open spec fn pow10(k: nat) -> nat
    decreases k,
{
    if k == 0 {
        1
    } else {
        10 * pow10((k - 1) as nat)
    }
}

/// Every character of a decimal rendering is a digit.
pub open spec fn all_digits(d: Seq<char>) -> bool {
    forall|k: int| 0 <= k < d.len() ==> is_digit(#[trigger] d[k])
}

/// The value a digit string denotes, most significant digit first.
pub open spec fn seq_val(d: Seq<char>) -> nat
    decreases d.len(),
{
    if d.len() == 0 {
        0
    } else {
        seq_val(d.drop_last()) * 10 + digit_val(d.last())
    }
}

/// The decimal rendering of `n` is a non-empty digit string denoting `n`,
/// opens with a digit, and has no leading zero.
pub proof fn lemma_dec_digits(n: nat)
    ensures
        dec_of(n).len() >= 1,
        all_digits(dec_of(n)),
        seq_val(dec_of(n)) == n,
        is_digit(dec_of(n)[0]),
        n >= 1 ==> dec_of(n)[0] != '0',
    decreases n,
{
    if n < 10 {
        assert(dec_of(n) =~= seq![dec_digit(n)]);
        assert(dec_of(n).drop_last() =~= Seq::<char>::empty());
        assert(seq_val(Seq::<char>::empty()) == 0);
        assert(dec_of(n).last() == dec_digit(n));
        assert(seq_val(dec_of(n)) == digit_val(dec_digit(n)));
    } else {
        lemma_dec_digits(n / 10);
        let d = dec_of(n / 10) + seq![dec_digit(n % 10)];
        assert(dec_of(n) == d);
        assert(d.drop_last() =~= dec_of(n / 10));
        assert(d.last() == dec_digit(n % 10));
        assert(seq_val(d) == (n / 10) * 10 + n % 10);
        assert((n / 10) * 10 + n % 10 == n) by (nonlinear_arith);
        assert forall|k: int| 0 <= k < d.len() implies is_digit(#[trigger] d[k]) by {
            if k < dec_of(n / 10).len() {
                assert(d[k] == dec_of(n / 10)[k]);
            }
        }
        assert(d[0] == dec_of(n / 10)[0]);
    }
}

/// Splitting a digit string at its first digit.
pub proof fn lemma_seq_val_first(d: Seq<char>)
    requires
        d.len() >= 1,
    ensures
        seq_val(d) == digit_val(d[0]) * pow10((d.len() - 1) as nat) + seq_val(d.drop_first()),
    decreases d.len(),
{
    if d.len() == 1 {
        assert(d.drop_last() =~= Seq::<char>::empty());
        assert(d.drop_first() =~= Seq::<char>::empty());
        assert(seq_val(Seq::<char>::empty()) == 0);
        assert(d.last() == d[0]);
        assert(seq_val(d) == digit_val(d[0]));
        assert(pow10(0) == 1);
    } else {
        let head = d.drop_last();
        lemma_seq_val_first(head);
        assert(head[0] == d[0]);
        assert(head.drop_first() =~= d.drop_first().drop_last());
        assert(d.drop_first().last() == d.last());
        let p = pow10((d.len() - 2) as nat);
        assert(seq_val(d) == seq_val(head) * 10 + digit_val(d.last()));
        assert(seq_val(head) == digit_val(d[0]) * p + seq_val(d.drop_first().drop_last()));
        assert(seq_val(d.drop_first()) == seq_val(d.drop_first().drop_last()) * 10 + digit_val(
            d.last(),
        ));
        assert((digit_val(d[0]) * p + seq_val(d.drop_first().drop_last())) * 10 + digit_val(
            d.last(),
        ) == digit_val(d[0]) * (10 * p) + (seq_val(d.drop_first().drop_last()) * 10 + digit_val(
            d.last(),
        ))) by (nonlinear_arith);
        assert(pow10((d.len() - 1) as nat) == 10 * p);
    }
}

/// The greedy digit loop over a digit string followed by a non-digit (or
/// the end) folds the string's value onto the accumulator.
pub proof fn lemma_p_num_loop(s: Seq<char>, i: int, acc: nat, d: Seq<char>)
    requires
        all_digits(d),
        match_at(s, i, d),
        i + d.len() == s.len() || !is_digit(s[i + d.len()]),
        acc * pow10(d.len()) + seq_val(d) <= usize::MAX as nat,
    ensures
        p_num_loop(s, i, acc) == Some(((acc * pow10(d.len()) + seq_val(d)) as nat, i + d.len())),
    decreases d.len(),
{
    if d.len() == 0 {
        assert(p_num_loop(s, i, acc) == Some((acc, i)));
        assert(acc * 1 + 0 == acc) by (nonlinear_arith);
    } else {
        assert(d[0] == s[i + 0]);
        lemma_seq_val_first(d);
        let d2 = d.drop_first();
        let p = pow10(d2.len());
        let a2 = acc * 10 + digit_val(d[0]);
        assert(acc * pow10(d.len()) + seq_val(d) == a2 * p + seq_val(d2)) by {
            assert(pow10(d.len()) == 10 * p);
            assert(acc * (10 * p) + (digit_val(d[0]) * p + seq_val(d2)) == (acc * 10 + digit_val(
                d[0],
            )) * p + seq_val(d2)) by (nonlinear_arith);
        }
        assert(a2 <= a2 * p + seq_val(d2)) by {
            assert(p >= 1) by {
                lemma_pow10_pos(d2.len());
            }
            assert(a2 * 1 <= a2 * p) by (nonlinear_arith)
                requires
                    p >= 1,
            ;
            assert(a2 * 1 == a2) by (nonlinear_arith);
        }
        lemma_match_split(s, i, seq![d[0]], d2);
        assert(seq![d[0]] + d2 =~= d);
        assert(match_at(s, i, seq![d[0]] + d2));
        lemma_p_num_loop(s, i + 1, a2, d2);
        assert(is_digit(s[i]));
        assert(p_num_loop(s, i, acc) == p_num_loop(s, i + 1, a2));
    }
}

/// Powers of ten are positive.
pub proof fn lemma_pow10_pos(k: nat)
    ensures
        pow10(k) >= 1,
    decreases k,
{
    if k > 0 {
        lemma_pow10_pos((k - 1) as nat);
    }
}

/// A machine-word number parses back from its decimal rendering, and the
/// parse stops exactly at the first character past it.
pub proof fn lemma_p_num_inverts(s: Seq<char>, i: int, n: usize)
    requires
        match_at(s, i, dec_of(n as nat)),
        i + dec_of(n as nat).len() == s.len() || !is_digit(s[i + dec_of(n as nat).len()]),
    ensures
        p_num(s, i) == Some((n as nat, i + dec_of(n as nat).len())),
{
    let d = dec_of(n as nat);
    lemma_dec_digits(n as nat);
    assert(d[0] == s[i + 0]);
    lemma_p_num_loop(s, i, 0, d);
    assert(0 * pow10(d.len()) + seq_val(d) == n) by (nonlinear_arith)
        requires
            seq_val(d) == n,
    ;
}

/// A low scalar value cast back to a character is the character it came
/// from.
proof fn lemma_char_cast(c: char)
    requires
        (c as u32) < 128,
    ensures
        ((c as u32) as u8) as char == c,
{
}

/// The string-body parser undoes the escaper: a run of escaped characters
/// followed by the closing quote decodes onto the accumulator and stops
/// right after the quote.
pub proof fn lemma_p_str_body(s: Seq<char>, j: int, acc: Seq<char>, q: Seq<char>)
    requires
        match_at(s, j, esc(q) + seq!['"']),
    ensures
        p_str_body(s, j, acc) == Some((acc + q, j + esc(q).len() + 1)),
    decreases q.len(),
{
    if q.len() == 0 {
        assert((esc(q) + seq!['"'])[0] == '"');
        assert(s[j] == '"');
        assert(acc + q =~= acc);
    } else {
        let c = q[0];
        let q2 = q.drop_first();
        let e = esc_char(c);
        assert(esc(q) == e + esc(q2));
        assert(esc(q) + seq!['"'] =~= e + (esc(q2) + seq!['"']));
        lemma_match_split(s, j, e, esc(q2) + seq!['"']);
        let j2 = j + e.len();
        assert(match_at(s, j2, esc(q2) + seq!['"']));
        if c == '"' {
            assert(e[0] == '\\' && e[1] == '"');
            assert(s[j] == '\\' && s[j + 1] == '"');
            lemma_p_str_body(s, j + 2, acc.push('"'), q2);
            assert(acc.push(c) + q2 =~= acc + q);
        } else if c == '\\' {
            assert(e[0] == '\\' && e[1] == '\\');
            assert(s[j] == '\\' && s[j + 1] == '\\');
            lemma_p_str_body(s, j + 2, acc.push('\\'), q2);
            assert(acc.push(c) + q2 =~= acc + q);
        } else if (c as u32) < 32 {
            let cu = c as u32;
            assert(e[0] == '\\' && e[1] == 'u' && e[2] == '0' && e[3] == '0');
            assert(e[4] == hex_digit((cu / 16) as nat) && e[5] == hex_digit((cu % 16) as nat));
            assert(s[j] == '\\' && s[j + 1] == 'u' && s[j + 2] == '0' && s[j + 3] == '0');
            assert(s[j + 4] == hex_digit((cu / 16) as nat));
            assert(s[j + 5] == hex_digit((cu % 16) as nat));
            assert(hex_val(hex_digit((cu / 16) as nat)) == Some((cu / 16) as nat));
            assert(hex_val(hex_digit((cu % 16) as nat)) == Some((cu % 16) as nat));
            assert((cu / 16) as nat * 16 + (cu % 16) as nat == cu);
            lemma_char_cast(c);
            lemma_p_str_body(s, j + 6, acc.push(c), q2);
            assert(acc.push(c) + q2 =~= acc + q);
        } else {
            assert(e[0] == c);
            assert(s[j] == c);
            lemma_p_str_body(s, j + 1, acc.push(c), q2);
            assert(acc.push(c) + q2 =~= acc + q);
        }
    }
}

/// A string parses back from its encoding, and the parse stops exactly at
/// the first character past the closing quote.
pub proof fn lemma_p_str_inverts(s: Seq<char>, i: int, q: Seq<char>)
    requires
        match_at(s, i, enc_str(q)),
    ensures
        p_str(s, i) == Some((q, i + enc_str(q).len())),
{
    assert(enc_str(q) =~= seq!['"'] + (esc(q) + seq!['"']));
    lemma_match_split(s, i, seq!['"'], esc(q) + seq!['"']);
    assert(match_at(s, i, seq!['"']));
    assert(seq!['"'][0] == s[i + 0]);
    assert(s[i] == '"');
    lemma_p_str_body(s, i + 1, Seq::empty(), q);
    assert(Seq::<char>::empty() + q =~= q);
}

/// A number-list tail is at least a bracket and one character per
/// element.
pub proof fn lemma_enc_num_tail_len(l: Seq<usize>)
    ensures
        enc_num_tail(l).len() >= 1 + l.len(),
    decreases l.len(),
{
    if l.len() > 0 {
        lemma_enc_num_tail_len(l.drop_first());
    }
}

/// A string-list tail is at least a bracket and one character per
/// element.
pub proof fn lemma_enc_str_tail_len(l: Seq<Seq<char>>)
    ensures
        enc_str_tail(l).len() >= 1 + l.len(),
    decreases l.len(),
{
    if l.len() > 0 {
        lemma_enc_str_tail_len(l.drop_first());
    }
}

/// The number-list tail parser undoes the tail encoder, given fuel for
/// every remaining element.
pub proof fn lemma_p_num_tail(s: Seq<char>, j: int, acc: Seq<usize>, l: Seq<usize>, fuel: nat)
    requires
        match_at(s, j, enc_num_tail(l)),
        fuel >= l.len(),
    ensures
        p_num_tail(s, j, acc, fuel) == Some((acc + l, j + enc_num_tail(l).len())),
    decreases l.len(),
{
    if l.len() == 0 {
        assert(enc_num_tail(l)[0] == ']');
        assert(s[j] == ']');
        assert(acc + l =~= acc);
    } else {
        let d = dec_of(l[0] as nat);
        let rest = enc_num_tail(l.drop_first());
        assert(enc_num_tail(l) =~= seq![','] + (d + rest));
        lemma_match_split(s, j, seq![','], d + rest);
        lemma_match_split(s, j + 1, d, rest);
        assert(seq![','][0] == s[j + 0]);
        lemma_dec_digits(l[0] as nat);
        let j2 = j + 1 + d.len();
        assert(rest[0] == s[j2 + 0]);
        if l.drop_first().len() == 0 {
            assert(rest[0] == ']');
        } else {
            assert(rest[0] == ',');
        }
        assert(!is_digit(s[j2]));
        lemma_p_num_inverts(s, j + 1, l[0]);
        lemma_p_num_tail(s, j2, acc.push(l[0]), l.drop_first(), (fuel - 1) as nat);
        assert(acc.push(l[0]) + l.drop_first() =~= acc + l);
    }
}

/// A number list parses back from its encoding.
pub proof fn lemma_p_num_list_inverts(s: Seq<char>, i: int, l: Seq<usize>)
    requires
        match_at(s, i, enc_num_list(l)),
        s.len() as nat >= l.len(),
    ensures
        p_num_list(s, i) == Some((l, i + enc_num_list(l).len())),
{
    if l.len() == 0 {
        assert(enc_num_list(l)[0] == '[');
        assert(enc_num_list(l)[1] == ']');
        assert(s[i] == '[' && s[i + 1] == ']');
        assert(p_num_list(s, i) == Some((Seq::<usize>::empty(), i + 2)));
    } else {
        let d = dec_of(l[0] as nat);
        let rest = enc_num_tail(l.drop_first());
        assert(enc_num_list(l) =~= seq!['['] + (d + rest));
        lemma_match_split(s, i, seq!['['], d + rest);
        lemma_match_split(s, i + 1, d, rest);
        assert(seq!['['][0] == s[i + 0]);
        lemma_dec_digits(l[0] as nat);
        assert(d[0] == s[i + 1 + 0]);
        assert(is_digit(s[i + 1]));
        assert(s[i + 1] != ']');
        let j2 = i + 1 + d.len();
        assert(rest[0] == s[j2 + 0]);
        if l.drop_first().len() == 0 {
            assert(rest[0] == ']');
        } else {
            assert(rest[0] == ',');
        }
        assert(!is_digit(s[j2]));
        lemma_p_num_inverts(s, i + 1, l[0]);
        lemma_p_num_tail(s, j2, seq![l[0]], l.drop_first(), s.len() as nat);
        assert(seq![l[0]] + l.drop_first() =~= l);
    }
}

/// The string-list tail parser undoes the tail encoder.
pub proof fn lemma_p_str_tail(
    s: Seq<char>,
    j: int,
    acc: Seq<Seq<char>>,
    l: Seq<Seq<char>>,
    fuel: nat,
)
    requires
        match_at(s, j, enc_str_tail(l)),
        fuel >= l.len(),
    ensures
        p_str_tail(s, j, acc, fuel) == Some((acc + l, j + enc_str_tail(l).len())),
    decreases l.len(),
{
    if l.len() == 0 {
        assert(enc_str_tail(l)[0] == ']');
        assert(s[j] == ']');
        assert(acc + l =~= acc);
    } else {
        let e = enc_str(l[0]);
        let rest = enc_str_tail(l.drop_first());
        assert(enc_str_tail(l) =~= seq![','] + (e + rest));
        lemma_match_split(s, j, seq![','], e + rest);
        lemma_match_split(s, j + 1, e, rest);
        assert(seq![','][0] == s[j + 0]);
        assert(s[j] == ',');
        assert(s[j] != ']');
        lemma_p_str_inverts(s, j + 1, l[0]);
        let j2 = j + 1 + e.len();
        lemma_p_str_tail(s, j2, acc.push(l[0]), l.drop_first(), (fuel - 1) as nat);
        assert(acc.push(l[0]) + l.drop_first() =~= acc + l);
    }
}

/// A string list parses back from its encoding.
pub proof fn lemma_p_str_list_inverts(s: Seq<char>, i: int, l: Seq<Seq<char>>)
    requires
        match_at(s, i, enc_str_list(l)),
        s.len() as nat >= l.len(),
    ensures
        p_str_list(s, i) == Some((l, i + enc_str_list(l).len())),
{
    if l.len() == 0 {
        assert(enc_str_list(l)[0] == '[');
        assert(enc_str_list(l)[1] == ']');
        assert(s[i] == '[' && s[i + 1] == ']');
        assert(p_str_list(s, i) == Some((Seq::<Seq<char>>::empty(), i + 2)));
    } else {
        let e = enc_str(l[0]);
        let rest = enc_str_tail(l.drop_first());
        assert(enc_str_list(l) =~= seq!['['] + (e + rest));
        lemma_match_split(s, i, seq!['['], e + rest);
        lemma_match_split(s, i + 1, e, rest);
        assert(seq!['['][0] == s[i + 0]);
        assert(e[0] == s[i + 1 + 0]);
        assert(s[i + 1] == '"');
        assert(s[i + 1] != ']');
        lemma_p_str_inverts(s, i + 1, l[0]);
        let j2 = i + 1 + e.len();
        lemma_p_str_tail(s, j2, seq![l[0]], l.drop_first(), s.len() as nat);
        assert(seq![l[0]] + l.drop_first() =~= l);
    }
}

/// A boolean parses back from its encoding.
pub proof fn lemma_p_bool_inverts(s: Seq<char>, i: int, b: bool)
    requires
        match_at(s, i, enc_bool(b)),
    ensures
        p_bool(s, i) == Some((b, i + enc_bool(b).len())),
{
    if b {
        assert(match_at(s, i, seq!['t', 'r', 'u', 'e']));
    } else {
        assert(s[i] == 'f');
        assert(!match_at(s, i, seq!['t', 'r', 'u', 'e']));
        assert(match_at(s, i, seq!['f', 'a', 'l', 's', 'e']));
    }
}

/// Anything matches itself at the start.
pub proof fn lemma_match_self(s: Seq<char>)
    ensures
        match_at(s, 0, s),
{
}

/// Decomposes an object-shaped message around its head and closing brace.
proof fn lemma_obj_parts(tag: Seq<char>, payload: Seq<char>)
    ensures
        match_at(wrap_obj(tag, payload), 0, obj_head(tag)),
        match_at(wrap_obj(tag, payload), obj_head(tag).len() as int, payload),
        wrap_obj(tag, payload).len() == obj_head(tag).len() + payload.len() + 1,
        wrap_obj(tag, payload)[wrap_obj(tag, payload).len() - 1] == '}',
        wrap_obj(tag, payload)[0] == '{',
        obj_end(wrap_obj(tag, payload), obj_head(tag).len() + payload.len() as int),
{
    let s = wrap_obj(tag, payload);
    lemma_match_self(s);
    assert(s =~= obj_head(tag) + (payload + seq!['}']));
    lemma_match_split(s, 0, obj_head(tag), payload + seq!['}']);
    lemma_match_split(s, obj_head(tag).len() as int, payload, seq!['}']);
    let j: int = obj_head(tag).len() + payload.len() as int;
    assert(seq!['}'][0] == s[j + 0]);
}

/// Every command parses back from its encoding: the codec is lossless on
/// commands, whatever their payload strings and track lists hold.
#[verifier::rlimit(100)]
pub proof fn lemma_cmd_round_trip(c: CommandView)
    ensures
        dec_cmd(enc_cmd(c)) == Some(c),
{
    let s = enc_cmd(c);
    match c {
        CommandView::Play => {
            assert(s[0] == '"');
        },
        CommandView::Pause => {
            assert(s[0] == '"');
            assert(s.len() == 7 && quoted(t_play()).len() == 6);
        },
        CommandView::Toggle => {
            assert(s[0] == '"');
            assert(s.len() == 8);
            assert(quoted(t_play()).len() == 6 && quoted(t_pause()).len() == 7);
        },
        CommandView::Next => {
            assert(s[0] == '"');
            assert(s.len() == 6);
            assert(s[1] == 'N' && quoted(t_play())[1] == 'P');
            assert(quoted(t_pause()).len() == 7 && quoted(t_toggle()).len() == 8);
        },
        CommandView::Prev => {
            assert(s[0] == '"');
            assert(s.len() == 6);
            assert(s[1] == 'P' && s[2] == 'r');
            assert(quoted(t_play())[2] == 'l');
            assert(quoted(t_next())[1] == 'N');
            assert(quoted(t_pause()).len() == 7 && quoted(t_toggle()).len() == 8);
        },
        CommandView::Stop => {
            assert(s[0] == '"');
            assert(s.len() == 6);
            assert(s[1] == 'S');
            assert(quoted(t_play())[1] == 'P');
            assert(quoted(t_next())[1] == 'N');
            assert(quoted(t_prev())[1] == 'P');
            assert(quoted(t_pause()).len() == 7 && quoted(t_toggle()).len() == 8);
        },
        CommandView::Clear => {
            assert(s[0] == '"');
            assert(s.len() == 7);
            assert(s[1] == 'C');
            assert(quoted(t_pause())[1] == 'P');
            assert(quoted(t_play()).len() == 6 && quoted(t_toggle()).len() == 8);
            assert(quoted(t_next()).len() == 6 && quoted(t_prev()).len() == 6);
            assert(quoted(t_stop()).len() == 6);
        },
        CommandView::StatusReq => {
            assert(s[0] == '"');
            assert(s.len() == 11);
            assert(quoted(t_play()).len() == 6 && quoted(t_pause()).len() == 7);
            assert(quoted(t_toggle()).len() == 8 && quoted(t_next()).len() == 6);
            assert(quoted(t_prev()).len() == 6 && quoted(t_stop()).len() == 6);
            assert(quoted(t_clear()).len() == 7);
        },
        CommandView::Add(n) => {
            lemma_rt_add(n);
        },
        CommandView::AddMany(l) => {
            lemma_rt_addmany(l);
        },
        CommandView::AddNext(n) => {
            lemma_rt_addnext(n);
        },
        CommandView::AddSearch(q) => {
            lemma_rt_addsearch(q);
        },
        CommandView::AddNextSearch(q) => {
            lemma_rt_addnextsearch(q);
        },
        CommandView::Search(q, ar, al, so, n) => {
            lemma_rt_search(q, ar, al, so, n);
        },
        CommandView::Status(t) => {
            lemma_rt_status(t);
        },
    }
}

/// Round trip for one payload-carrying command shape.
#[verifier::rlimit(100)]
proof fn lemma_rt_add(n: usize)
    ensures
        dec_cmd(enc_cmd(CommandView::Add(n))) == Some(CommandView::Add(n)),
{
    let c = CommandView::Add(n);
    let s = enc_cmd(c);
            lemma_obj_parts(t_add(), dec_of(n as nat));
            lemma_dec_digits(n as nat);
            assert(s[5] == '"');
            assert(obj_head(t_addnextsearch())[5] == 'N');
            assert(!match_at(s, 0, obj_head(t_addnextsearch())));
            assert(obj_head(t_addsearch())[5] == 'S');
            assert(!match_at(s, 0, obj_head(t_addsearch())));
            assert(obj_head(t_addmany())[5] == 'M');
            assert(!match_at(s, 0, obj_head(t_addmany())));
            assert(obj_head(t_addnext())[5] == 'N');
            assert(!match_at(s, 0, obj_head(t_addnext())));
            let d = dec_of(n as nat);
            assert(match_at(s, 7, d));
            assert(!is_digit('}'));
            assert(s[7 + d.len() as int] == '}');
            lemma_p_num_inverts(s, 7, n);
            assert(obj_end(s, 7 + d.len() as int));
            assert(dec_cmd(s) == Some(c));
}

/// Round trip for one payload-carrying command shape.
#[verifier::rlimit(100)]
proof fn lemma_rt_addmany(l: Seq<usize>)
    ensures
        dec_cmd(enc_cmd(CommandView::AddMany(l))) == Some(CommandView::AddMany(l)),
{
    let c = CommandView::AddMany(l);
    let s = enc_cmd(c);
            lemma_obj_parts(t_addmany(), enc_num_list(l));
            assert(s[5] == 'M');
            assert(obj_head(t_addnextsearch())[5] == 'N');
            assert(!match_at(s, 0, obj_head(t_addnextsearch())));
            assert(obj_head(t_addsearch())[5] == 'S');
            assert(!match_at(s, 0, obj_head(t_addsearch())));
            if l.len() > 0 {
                lemma_dec_digits(l[0] as nat);
                lemma_enc_num_tail_len(l.drop_first());
            }
            assert(s.len() as nat >= l.len());
            lemma_p_num_list_inverts(s, 11, l);
            assert(obj_end(s, 11 + enc_num_list(l).len() as int));
            assert(dec_cmd(s) == Some(c));
}

/// Round trip for one payload-carrying command shape.
#[verifier::rlimit(100)]
proof fn lemma_rt_addnext(n: usize)
    ensures
        dec_cmd(enc_cmd(CommandView::AddNext(n))) == Some(CommandView::AddNext(n)),
{
    let c = CommandView::AddNext(n);
    let s = enc_cmd(c);
            lemma_obj_parts(t_addnext(), dec_of(n as nat));
            lemma_dec_digits(n as nat);
            assert(s[5] == 'N' && s[9] == '"');
            assert(obj_head(t_addnextsearch())[9] == 'S');
            assert(!match_at(s, 0, obj_head(t_addnextsearch())));
            assert(obj_head(t_addsearch())[5] == 'S');
            assert(!match_at(s, 0, obj_head(t_addsearch())));
            assert(obj_head(t_addmany())[5] == 'M');
            assert(!match_at(s, 0, obj_head(t_addmany())));
            let d = dec_of(n as nat);
            assert(match_at(s, 11, d));
            assert(!is_digit('}'));
            assert(s[11 + d.len() as int] == '}');
            lemma_p_num_inverts(s, 11, n);
            assert(obj_end(s, 11 + d.len() as int));
            assert(dec_cmd(s) == Some(c));
}

/// Round trip for one payload-carrying command shape.
#[verifier::rlimit(100)]
proof fn lemma_rt_addsearch(q: Seq<char>)
    ensures
        dec_cmd(enc_cmd(CommandView::AddSearch(q))) == Some(CommandView::AddSearch(q)),
{
    let c = CommandView::AddSearch(q);
    let s = enc_cmd(c);
            lemma_obj_parts(t_addsearch(), enc_str(q));
            assert(s[5] == 'S');
            assert(obj_head(t_addnextsearch())[5] == 'N');
            assert(!match_at(s, 0, obj_head(t_addnextsearch())));
            lemma_p_str_inverts(s, 13, q);
            assert(obj_end(s, 13 + enc_str(q).len() as int));
            assert(dec_cmd(s) == Some(c));
}

/// Round trip for one payload-carrying command shape.
#[verifier::rlimit(100)]
proof fn lemma_rt_addnextsearch(q: Seq<char>)
    ensures
        dec_cmd(enc_cmd(CommandView::AddNextSearch(q))) == Some(CommandView::AddNextSearch(q)),
{
    let c = CommandView::AddNextSearch(q);
    let s = enc_cmd(c);
            lemma_obj_parts(t_addnextsearch(), enc_str(q));
            lemma_p_str_inverts(s, 17, q);
            assert(obj_end(s, 17 + enc_str(q).len() as int));
            assert(dec_cmd(s) == Some(c));
}

/// Round trip for one payload-carrying command shape.
#[verifier::rlimit(100)]
proof fn lemma_rt_search(q: Seq<char>, ar: bool, al: bool, so: bool, n: usize)
    ensures
        dec_cmd(enc_cmd(CommandView::Search(q, ar, al, so, n))) == Some(CommandView::Search(q, ar, al, so, n)),
{
    let c = CommandView::Search(q, ar, al, so, n);
    let s = enc_cmd(c);
    let payload = enc_search_payload(q, ar, al, so, n);
    lemma_obj_parts(t_search(), payload);
    assert(s[2] == 'S');
    assert(!match_at(s, 0, obj_head(t_addnextsearch()))) by {
        assert(obj_head(t_addnextsearch())[2] == 'A');
    }
    assert(!match_at(s, 0, obj_head(t_addsearch()))) by {
        assert(obj_head(t_addsearch())[2] == 'A');
    }
    assert(!match_at(s, 0, obj_head(t_addmany()))) by {
        assert(obj_head(t_addmany())[2] == 'A');
    }
    assert(!match_at(s, 0, obj_head(t_addnext()))) by {
        assert(obj_head(t_addnext())[2] == 'A');
    }
    assert(!match_at(s, 0, obj_head(t_add()))) by {
        assert(obj_head(t_add())[2] == 'A');
    }
    lemma_search_payload_inverts(s, 10, q, ar, al, so, n);
    assert(obj_end(s, 10 + payload.len() as int));
    assert(dec_cmd(s) == Some(c));
}

/// Round trip for one payload-carrying command shape.
#[verifier::rlimit(100)]
proof fn lemma_rt_status(t: Seq<char>)
    ensures
        dec_cmd(enc_cmd(CommandView::Status(t))) == Some(CommandView::Status(t)),
{
    let c = CommandView::Status(t);
    let s = enc_cmd(c);
            lemma_obj_parts(t_status(), enc_str(t));
            assert(s[2] == 'S' && s[3] == 't');
            assert(obj_head(t_addnextsearch())[2] == 'A');
            assert(!match_at(s, 0, obj_head(t_addnextsearch())));
            assert(obj_head(t_addsearch())[2] == 'A');
            assert(!match_at(s, 0, obj_head(t_addsearch())));
            assert(obj_head(t_addmany())[2] == 'A');
            assert(!match_at(s, 0, obj_head(t_addmany())));
            assert(obj_head(t_addnext())[2] == 'A');
            assert(!match_at(s, 0, obj_head(t_addnext())));
            assert(obj_head(t_add())[2] == 'A');
            assert(!match_at(s, 0, obj_head(t_add())));
            assert(obj_head(t_search())[3] == 'e');
            assert(!match_at(s, 0, obj_head(t_search())));
            lemma_p_str_inverts(s, 10, t);
            assert(obj_end(s, 10 + enc_str(t).len() as int));
            assert(dec_cmd(s) == Some(c));
}

/// The search command's payload parses back from its encoding.
#[verifier::rlimit(100)]
proof fn lemma_search_payload_inverts(
    s: Seq<char>,
    i: int,
    q: Seq<char>,
    ar: bool,
    al: bool,
    so: bool,
    n: usize,
)
    requires
        match_at(s, i, enc_search_payload(q, ar, al, so, n)),
        i + enc_search_payload(q, ar, al, so, n).len() == s.len() || !is_digit(
            s[i + enc_search_payload(q, ar, al, so, n).len()],
        ),
    ensures
        p_search_payload(s, i) == Some(
            ((q, ar, al, so, n), i + enc_search_payload(q, ar, al, so, n).len()),
        ),
{
    reveal(p_search_payload);
    let eq = enc_str(q);
    let e1 = enc_bool(ar);
    let e2 = enc_bool(al);
    let e3 = enc_bool(so);
    let d = dec_of(n as nat);
    let p = enc_search_payload(q, ar, al, so, n);
    assert(p =~= seq!['['] + (eq + (seq![','] + (e1 + (seq![','] + (e2 + (seq![','] + (e3 + (
    seq![','] + (d + seq![']']))))))))));
    lemma_match_split(s, i, seq!['['], eq + (seq![','] + (e1 + (seq![','] + (e2 + (seq![','] + (e3
        + (seq![','] + (d + seq![']'])))))))));
    assert(seq!['['][0] == s[i + 0]);
    let i1: int = i + 1;
    lemma_match_split(s, i1, eq, seq![','] + (e1 + (seq![','] + (e2 + (seq![','] + (e3 + (
    seq![','] + (d + seq![']']))))))));
    lemma_p_str_inverts(s, i1, q);
    let j1: int = i1 + eq.len() as int;
    lemma_match_split(s, j1, seq![','], e1 + (seq![','] + (e2 + (seq![','] + (e3 + (seq![','] + (d
        + seq![']'])))))));
    assert(seq![','][0] == s[j1 + 0]);
    lemma_match_split(s, j1 + 1, e1, seq![','] + (e2 + (seq![','] + (e3 + (seq![','] + (d
        + seq![']']))))));
    lemma_p_bool_inverts(s, j1 + 1, ar);
    let j2: int = j1 + 1 + e1.len() as int;
    lemma_match_split(s, j2, seq![','], e2 + (seq![','] + (e3 + (seq![','] + (d + seq![']'])))));
    assert(seq![','][0] == s[j2 + 0]);
    lemma_match_split(s, j2 + 1, e2, seq![','] + (e3 + (seq![','] + (d + seq![']']))));
    lemma_p_bool_inverts(s, j2 + 1, al);
    let j3: int = j2 + 1 + e2.len() as int;
    lemma_match_split(s, j3, seq![','], e3 + (seq![','] + (d + seq![']'])));
    assert(seq![','][0] == s[j3 + 0]);
    lemma_match_split(s, j3 + 1, e3, seq![','] + (d + seq![']']));
    lemma_p_bool_inverts(s, j3 + 1, so);
    let j4: int = j3 + 1 + e3.len() as int;
    lemma_match_split(s, j4, seq![','], d + seq![']']);
    assert(seq![','][0] == s[j4 + 0]);
    lemma_match_split(s, j4 + 1, d, seq![']']);
    let j5: int = j4 + 1 + d.len() as int;
    assert(seq![']'][0] == s[j5 + 0]);
    assert(!is_digit(']'));
    lemma_p_num_inverts(s, j4 + 1, n);
}

/// Every reply parses back from its encoding: the codec is lossless on
/// replies, whatever their rendered lists and texts hold.
#[verifier::rlimit(100)]
pub proof fn lemma_reply_round_trip(r: ReplyView)
    ensures
        dec_reply(enc_reply(r)) == Some(r),
{
    let s = enc_reply(r);
    match r {
        ReplyView::Empty => {
            assert(s[0] == '"');
        },
        ReplyView::Other(t) => {
            lemma_rt_reply_other(t);
        },
        ReplyView::Search { albums, artists, songs } => {
            lemma_rt_reply_search(albums, artists, songs);
        },
    }
}

/// Round trip for the text reply shape.
#[verifier::rlimit(100)]
proof fn lemma_rt_reply_other(t: Seq<char>)
    ensures
        dec_reply(enc_reply(ReplyView::Other(t))) == Some(ReplyView::Other(t)),
{
    let r = ReplyView::Other(t);
    let s = enc_reply(r);
    lemma_obj_parts(t_other(), enc_str(t));
    lemma_p_str_inverts(s, 9, t);
    assert(obj_end(s, 9 + enc_str(t).len() as int));
    assert(dec_reply(s) == Some(r));
}

/// Round trip for the search reply shape.
#[verifier::rlimit(100)]
proof fn lemma_rt_reply_search(albums: Seq<Seq<char>>, artists: Seq<Seq<char>>, songs: Seq<Seq<char>>)
    ensures
        dec_reply(enc_reply(ReplyView::Search { albums, artists, songs })) == Some(
            ReplyView::Search { albums, artists, songs },
        ),
{
    let r = ReplyView::Search { albums, artists, songs };
    let s = enc_reply(r);
    let payload = enc_reply_search_payload(albums, artists, songs);
    lemma_obj_parts(t_search(), payload);
    assert(s[2] == 'S');
    assert(obj_head(t_other())[2] == 'O');
    assert(!match_at(s, 0, obj_head(t_other())));
    lemma_reply_search_payload_inverts(s, 10, albums, artists, songs);
    assert(obj_end(s, 10 + payload.len() as int));
    assert(dec_reply(s) == Some(r));
}

/// The search reply's payload parses back from its encoding.
#[verifier::rlimit(100)]
proof fn lemma_reply_search_payload_inverts(
    s: Seq<char>,
    i: int,
    albums: Seq<Seq<char>>,
    artists: Seq<Seq<char>>,
    songs: Seq<Seq<char>>,
)
    requires
        match_at(s, i, enc_reply_search_payload(albums, artists, songs)),
    ensures
        p_reply_search_payload(s, i) == Some(
            ((albums, artists, songs), i + enc_reply_search_payload(albums, artists, songs).len()),
        ),
{
    reveal(p_reply_search_payload);
    let k1 = quoted(t_albums()) + seq![':'];
    let k2 = quoted(t_artists()) + seq![':'];
    let k3 = quoted(t_songs()) + seq![':'];
    let l1 = enc_str_list(albums);
    let l2 = enc_str_list(artists);
    let l3 = enc_str_list(songs);
    let p = enc_reply_search_payload(albums, artists, songs);
    assert(p =~= seq!['{'] + (k1 + (l1 + (seq![','] + (k2 + (l2 + (seq![','] + (k3 + (l3
        + seq!['}'])))))))));
    lemma_match_split(s, i, seq!['{'], k1 + (l1 + (seq![','] + (k2 + (l2 + (seq![','] + (k3 + (l3
        + seq!['}']))))))));
    assert(seq!['{'][0] == s[i + 0]);
    lemma_match_split(s, i + 1, k1, l1 + (seq![','] + (k2 + (l2 + (seq![','] + (k3 + (l3
        + seq!['}'])))))));
    assert(k1.len() == 9);
    lemma_match_split(s, i + 10, l1, seq![','] + (k2 + (l2 + (seq![','] + (k3 + (l3
        + seq!['}']))))));
    if albums.len() > 0 {
        lemma_enc_str_tail_len(albums.drop_first());
    }
    lemma_p_str_list_inverts(s, i + 10, albums);
    let j1: int = i + 10 + l1.len() as int;
    lemma_match_split(s, j1, seq![','], k2 + (l2 + (seq![','] + (k3 + (l3 + seq!['}'])))));
    assert(seq![','][0] == s[j1 + 0]);
    lemma_match_split(s, j1 + 1, k2, l2 + (seq![','] + (k3 + (l3 + seq!['}']))));
    assert(k2.len() == 10);
    lemma_match_split(s, j1 + 11, l2, seq![','] + (k3 + (l3 + seq!['}'])));
    if artists.len() > 0 {
        lemma_enc_str_tail_len(artists.drop_first());
    }
    lemma_p_str_list_inverts(s, j1 + 11, artists);
    let j2: int = j1 + 11 + l2.len() as int;
    lemma_match_split(s, j2, seq![','], k3 + (l3 + seq!['}']));
    assert(seq![','][0] == s[j2 + 0]);
    lemma_match_split(s, j2 + 1, k3, l3 + seq!['}']);
    assert(k3.len() == 8);
    lemma_match_split(s, j2 + 9, l3, seq!['}']);
    if songs.len() > 0 {
        lemma_enc_str_tail_len(songs.drop_first());
    }
    lemma_p_str_list_inverts(s, j2 + 9, songs);
    let j3: int = j2 + 9 + l3.len() as int;
    assert(seq!['}'][0] == s[j3 + 0]);
}

// ---------------------------------------------------------------------
// Executable encoding
// ---------------------------------------------------------------------

/// Appends each character of the slice.
fn push_chars(out: &mut String, cs: &[char])
    ensures
        final(out)@ == old(out)@ + cs@,
{
    let mut k: usize = 0;
    proof {
        assert(out@ =~= old(out)@ + cs@.subrange(0, 0));
    }
    while k < cs.len()
        invariant
            k <= cs@.len(),
            out@ == old(out)@ + cs@.subrange(0, k as int),
        decreases cs@.len() - k,
    {
        crate::text::push_char(out, cs[k]);
        proof {
            assert(out@ =~= old(out)@ + cs@.subrange(0, k + 1));
        }
        k = k + 1;
    }
    proof {
        assert(cs@.subrange(0, cs@.len() as int) =~= cs@);
    }
}

/// Escaping one more character extends the escaped string.
proof fn lemma_esc_snoc(s: Seq<char>, c: char)
    ensures
        esc(s.push(c)) == esc(s) + esc_char(c),
    decreases s.len(),
{
    if s.len() == 0 {
        assert(s.push(c).drop_first() =~= Seq::<char>::empty());
        assert(esc(s.push(c)) =~= esc_char(c) + esc(Seq::<char>::empty()));
        assert(esc(s.push(c)) =~= esc(s) + esc_char(c));
    } else {
        assert(s.push(c).drop_first() =~= s.drop_first().push(c));
        lemma_esc_snoc(s.drop_first(), c);
        assert(esc(s.push(c)) =~= esc(s) + esc_char(c));
    }
}

/// Appends the escaped characters of `s`.
fn push_esc(out: &mut String, s: &str)
    ensures
        final(out)@ == old(out)@ + esc(s@),
{
    let n = s.unicode_len();
    let mut i: usize = 0;
    proof {
        assert(s@.subrange(0, 0) =~= Seq::<char>::empty());
        assert(out@ =~= old(out)@ + esc(s@.subrange(0, 0)));
    }
    while i < n
        invariant
            n as nat == s@.len(),
            i <= n,
            out@ == old(out)@ + esc(s@.subrange(0, i as int)),
        decreases n - i,
    {
        let c = s.get_char(i);
        if c == '"' {
            crate::text::push_char(out, '\\');
            crate::text::push_char(out, '"');
        } else if c == '\\' {
            crate::text::push_char(out, '\\');
            crate::text::push_char(out, '\\');
        } else if (c as u32) < 32 {
            let v = c as u32;
            crate::text::push_char(out, '\\');
            crate::text::push_char(out, 'u');
            crate::text::push_char(out, '0');
            crate::text::push_char(out, '0');
            let h1: u8 = (v / 16) as u8;
            let c1: char = if h1 < 10 {
                (48 + h1) as char
            } else {
                (87 + h1) as char
            };
            crate::text::push_char(out, c1);
            let h2: u8 = (v % 16) as u8;
            let c2: char = if h2 < 10 {
                (48 + h2) as char
            } else {
                (87 + h2) as char
            };
            crate::text::push_char(out, c2);
            proof {
                assert(c1 == hex_digit((c as u32 / 16) as nat));
                assert(c2 == hex_digit((c as u32 % 16) as nat));
            }
        } else {
            crate::text::push_char(out, c);
        }
        proof {
            lemma_esc_snoc(s@.subrange(0, i as int), c);
            assert(s@.subrange(0, i + 1) =~= s@.subrange(0, i as int).push(c));
            assert(out@ =~= old(out)@ + esc(s@.subrange(0, i + 1)));
        }
        i = i + 1;
    }
    proof {
        assert(s@.subrange(0, s@.len() as int) =~= s@);
    }
}

/// Appends `s` as a JSON string.
fn push_enc_str(out: &mut String, s: &str)
    ensures
        final(out)@ == old(out)@ + enc_str(s@),
{
    crate::text::push_char(out, '"');
    push_esc(out, s);
    crate::text::push_char(out, '"');
    proof {
        assert(out@ =~= old(out)@ + enc_str(s@));
    }
}

/// Appends a JSON boolean.
fn push_bool(out: &mut String, b: bool)
    ensures
        final(out)@ == old(out)@ + enc_bool(b),
{
    if b {
        push_chars(out, &['t', 'r', 'u', 'e']);
        proof {
            assert(out@ =~= old(out)@ + enc_bool(b));
        }
    } else {
        push_chars(out, &['f', 'a', 'l', 's', 'e']);
        proof {
            assert(out@ =~= old(out)@ + enc_bool(b));
        }
    }
}

/// Appends the tail of a number list, from index `i` on.
fn push_num_tail(out: &mut String, l: &Vec<usize>, i: usize)
    requires
        i <= l@.len(),
    ensures
        final(out)@ == old(out)@ + enc_num_tail(l@.skip(i as int)),
    decreases l@.len() - i,
{
    if i == l.len() {
        crate::text::push_char(out, ']');
        proof {
            assert(l@.skip(i as int) =~= Seq::<usize>::empty());
            assert(out@ =~= old(out)@ + enc_num_tail(l@.skip(i as int)));
        }
    } else {
        crate::text::push_char(out, ',');
        crate::text::push_dec(out, l[i] as u128);
        push_num_tail(out, l, i + 1);
        proof {
            let t = l@.skip(i as int);
            assert(t[0] == l@[i as int]);
            assert(t.drop_first() =~= l@.skip(i + 1));
            assert(out@ =~= old(out)@ + enc_num_tail(t));
        }
    }
}

/// Appends a JSON list of numbers.
fn push_num_list(out: &mut String, l: &Vec<usize>)
    ensures
        final(out)@ == old(out)@ + enc_num_list(l@),
{
    if l.len() == 0 {
        crate::text::push_char(out, '[');
        crate::text::push_char(out, ']');
        proof {
            assert(out@ =~= old(out)@ + enc_num_list(l@));
        }
    } else {
        crate::text::push_char(out, '[');
        crate::text::push_dec(out, l[0] as u128);
        push_num_tail(out, l, 1);
        proof {
            assert(l@.skip(1) =~= l@.drop_first());
            assert(out@ =~= old(out)@ + enc_num_list(l@));
        }
    }
}

/// Appends the tail of a string list, from index `i` on.
fn push_str_tail(out: &mut String, l: &Vec<String>, i: usize)
    requires
        i <= l@.len(),
    ensures
        final(out)@ == old(out)@ + enc_str_tail(
            l@.map_values(|x: String| x@).skip(i as int),
        ),
    decreases l@.len() - i,
{
    let ghost lv = l@.map_values(|x: String| x@);
    if i == l.len() {
        crate::text::push_char(out, ']');
        proof {
            assert(lv.skip(i as int) =~= Seq::<Seq<char>>::empty());
            assert(out@ =~= old(out)@ + enc_str_tail(lv.skip(i as int)));
        }
    } else {
        crate::text::push_char(out, ',');
        push_enc_str(out, l[i].as_str());
        push_str_tail(out, l, i + 1);
        proof {
            let t = lv.skip(i as int);
            assert(t[0] == lv[i as int]);
            assert(lv[i as int] == l@[i as int]@);
            assert(t.drop_first() =~= lv.skip(i + 1));
            assert(out@ =~= old(out)@ + enc_str_tail(t));
        }
    }
}

/// Appends a JSON list of strings.
fn push_str_list(out: &mut String, l: &Vec<String>)
    ensures
        final(out)@ == old(out)@ + enc_str_list(l@.map_values(|x: String| x@)),
{
    let ghost lv = l@.map_values(|x: String| x@);
    if l.len() == 0 {
        crate::text::push_char(out, '[');
        crate::text::push_char(out, ']');
        proof {
            assert(lv.len() == 0);
            assert(out@ =~= old(out)@ + enc_str_list(lv));
        }
    } else {
        crate::text::push_char(out, '[');
        push_enc_str(out, l[0].as_str());
        push_str_tail(out, l, 1);
        proof {
            assert(lv[0] == l@[0]@);
            assert(lv.skip(1) =~= lv.drop_first());
            assert(out@ =~= old(out)@ + enc_str_list(lv));
        }
    }
}

/// Encodes one command for the wire.
#[verifier::rlimit(100)]
pub fn encode_command(c: &Command) -> (r: String)
    ensures
        r@ == enc_cmd(c@),
{
    let mut out = String::new();
    match c {
        Command::Play => {
            push_chars(&mut out, &['"', 'P', 'l', 'a', 'y', '"']);
            proof {
                assert(out@ =~= quoted(t_play()));
            }
        },
        Command::Pause => {
            push_chars(&mut out, &['"', 'P', 'a', 'u', 's', 'e', '"']);
            proof {
                assert(out@ =~= quoted(t_pause()));
            }
        },
        Command::Toggle => {
            push_chars(&mut out, &['"', 'T', 'o', 'g', 'g', 'l', 'e', '"']);
            proof {
                assert(out@ =~= quoted(t_toggle()));
            }
        },
        Command::Next => {
            push_chars(&mut out, &['"', 'N', 'e', 'x', 't', '"']);
            proof {
                assert(out@ =~= quoted(t_next()));
            }
        },
        Command::Prev => {
            push_chars(&mut out, &['"', 'P', 'r', 'e', 'v', '"']);
            proof {
                assert(out@ =~= quoted(t_prev()));
            }
        },
        Command::Stop => {
            push_chars(&mut out, &['"', 'S', 't', 'o', 'p', '"']);
            proof {
                assert(out@ =~= quoted(t_stop()));
            }
        },
        Command::Clear => {
            push_chars(&mut out, &['"', 'C', 'l', 'e', 'a', 'r', '"']);
            proof {
                assert(out@ =~= quoted(t_clear()));
            }
        },
        Command::StatusReq => {
            push_chars(&mut out, &['"', 'S', 't', 'a', 't', 'u', 's', 'R', 'e', 'q', '"']);
            proof {
                assert(out@ =~= quoted(t_statusreq()));
            }
        },
        Command::Add(n) => {
            push_chars(&mut out, &['{', '"', 'A', 'd', 'd', '"', ':']);
            crate::text::push_dec(&mut out, *n as u128);
            crate::text::push_char(&mut out, '}');
            proof {
                assert(out@ =~= wrap_obj(t_add(), dec_of(*n as nat)));
            }
        },
        Command::AddMany(l) => {
            push_chars(&mut out, &['{', '"', 'A', 'd', 'd', 'M', 'a', 'n', 'y', '"', ':']);
            push_num_list(&mut out, l);
            crate::text::push_char(&mut out, '}');
            proof {
                assert(out@ =~= wrap_obj(t_addmany(), enc_num_list(l@)));
            }
        },
        Command::AddNext(n) => {
            push_chars(&mut out, &['{', '"', 'A', 'd', 'd', 'N', 'e', 'x', 't', '"', ':']);
            crate::text::push_dec(&mut out, *n as u128);
            crate::text::push_char(&mut out, '}');
            proof {
                assert(out@ =~= wrap_obj(t_addnext(), dec_of(*n as nat)));
            }
        },
        Command::AddSearch(q) => {
            push_chars(
                &mut out,
                &['{', '"', 'A', 'd', 'd', 'S', 'e', 'a', 'r', 'c', 'h', '"', ':'],
            );
            push_enc_str(&mut out, q.as_str());
            crate::text::push_char(&mut out, '}');
            proof {
                assert(out@ =~= wrap_obj(t_addsearch(), enc_str(q@)));
            }
        },
        Command::AddNextSearch(q) => {
            push_chars(
                &mut out,
                &[
                    '{',
                    '"',
                    'A',
                    'd',
                    'd',
                    'N',
                    'e',
                    'x',
                    't',
                    'S',
                    'e',
                    'a',
                    'r',
                    'c',
                    'h',
                    '"',
                    ':',
                ],
            );
            push_enc_str(&mut out, q.as_str());
            crate::text::push_char(&mut out, '}');
            proof {
                assert(out@ =~= wrap_obj(t_addnextsearch(), enc_str(q@)));
            }
        },
        Command::Search(q, ar, al, so, n) => {
            push_chars(&mut out, &['{', '"', 'S', 'e', 'a', 'r', 'c', 'h', '"', ':', '[']);
            push_enc_str(&mut out, q.as_str());
            crate::text::push_char(&mut out, ',');
            push_bool(&mut out, *ar);
            crate::text::push_char(&mut out, ',');
            push_bool(&mut out, *al);
            crate::text::push_char(&mut out, ',');
            push_bool(&mut out, *so);
            crate::text::push_char(&mut out, ',');
            crate::text::push_dec(&mut out, *n as u128);
            push_chars(&mut out, &[']', '}']);
            proof {
                assert(out@ =~= wrap_obj(
                    t_search(),
                    enc_search_payload(q@, *ar, *al, *so, *n),
                ));
            }
        },
        Command::Status(t) => {
            push_chars(&mut out, &['{', '"', 'S', 't', 'a', 't', 'u', 's', '"', ':']);
            push_enc_str(&mut out, t.as_str());
            crate::text::push_char(&mut out, '}');
            proof {
                assert(out@ =~= wrap_obj(t_status(), enc_str(t@)));
            }
        },
    }
    out
}

/// Encodes one reply for the wire.
#[verifier::rlimit(100)]
pub fn encode_reply(r: &Reply) -> (res: String)
    ensures
        res@ == enc_reply(r@),
{
    let mut out = String::new();
    match r {
        Reply::Empty => {
            push_chars(&mut out, &['"', 'N', 'o', 'n', 'e', '"']);
            proof {
                assert(out@ =~= quoted(t_none()));
            }
        },
        Reply::Other(t) => {
            push_chars(&mut out, &['{', '"', 'O', 't', 'h', 'e', 'r', '"', ':']);
            push_enc_str(&mut out, t.as_str());
            crate::text::push_char(&mut out, '}');
            proof {
                assert(out@ =~= wrap_obj(t_other(), enc_str(t@)));
            }
        },
        Reply::Search { albums, artists, songs } => {
            push_chars(&mut out, &['{', '"', 'S', 'e', 'a', 'r', 'c', 'h', '"', ':', '{']);
            push_chars(&mut out, &['"', 'a', 'l', 'b', 'u', 'm', 's', '"', ':']);
            push_str_list(&mut out, albums);
            crate::text::push_char(&mut out, ',');
            push_chars(&mut out, &['"', 'a', 'r', 't', 'i', 's', 't', 's', '"', ':']);
            push_str_list(&mut out, artists);
            crate::text::push_char(&mut out, ',');
            push_chars(&mut out, &['"', 's', 'o', 'n', 'g', 's', '"', ':']);
            push_str_list(&mut out, songs);
            push_chars(&mut out, &['}', '}']);
            proof {
                assert(out@ =~= wrap_obj(
                    t_search(),
                    enc_reply_search_payload(
                        albums@.map_values(|x: String| x@),
                        artists@.map_values(|x: String| x@),
                        songs@.map_values(|x: String| x@),
                    ),
                ));
            }
        },
    }
    out
}

// ---------------------------------------------------------------------
// Executable parsing
// ---------------------------------------------------------------------

/// Reads one lowercase-hex digit.
fn x_hex(c: char) -> (r: Option<u8>)
    ensures
        match r {
            Some(v) => hex_val(c) == Some(v as nat) && v < 16,
            None => hex_val(c) is None,
        },
{
    let u = c as u32;
    if 48 <= u && u <= 57 {
        Some((u - 48) as u8)
    } else if 97 <= u && u <= 102 {
        Some((u - 87) as u8)
    } else {
        None
    }
}

/// The greedy digit loop.
fn x_num_loop(s: &str, i: usize, acc: usize) -> (r: Option<(usize, usize)>)
    requires
        i <= s@.len(),
    ensures
        match r {
            Some((v, j)) => p_num_loop(s@, i as int, acc as nat) == Some((v as nat, j as int)) && i
                <= j <= s@.len(),
            None => p_num_loop(s@, i as int, acc as nat) is None,
        },
    decreases s@.len() - i,
{
    let n = s.unicode_len();
    if i < n {
        let c = s.get_char(i);
        let u = c as u32;
        if 48 <= u && u <= 57 {
            let wide: u128 = (acc as u128) * 10 + ((u - 48) as u128);
            proof {
                assert(digit_val(c) == (u - 48) as nat);
                assert(wide as nat == acc as nat * 10 + digit_val(c));
            }
            if wide > (usize::MAX as u128) {
                None
            } else {
                x_num_loop(s, i + 1, wide as usize)
            }
        } else {
            Some((acc, i))
        }
    } else {
        Some((acc, i))
    }
}

/// Reads a JSON number.
fn x_num(s: &str, i: usize) -> (r: Option<(usize, usize)>)
    ensures
        match r {
            Some((v, j)) => p_num(s@, i as int) == Some((v as nat, j as int)) && j <= s@.len(),
            None => p_num(s@, i as int) is None,
        },
{
    let n = s.unicode_len();
    if i < n {
        let c = s.get_char(i);
        let u = c as u32;
        if 48 <= u && u <= 57 {
            if c == '0' && n - i > 1 {
                let c2 = s.get_char(i + 1);
                let u2 = c2 as u32;
                if 48 <= u2 && u2 <= 57 {
                    return None;
                }
            }
            x_num_loop(s, i, 0)
        } else {
            None
        }
    } else {
        None
    }
}

/// Reads a JSON string.
fn x_str(s: &str, i: usize) -> (r: Option<(String, usize)>)
    ensures
        match r {
            Some((t, j)) => p_str(s@, i as int) == Some((t@, j as int)) && j <= s@.len(),
            None => p_str(s@, i as int) is None,
        },
{
    let n = s.unicode_len();
    if !(i < n) {
        return None;
    }
    if s.get_char(i) != '"' {
        return None;
    }
    let mut j = i + 1;
    let mut out = String::new();
    loop
        invariant
            n as nat == s@.len(),
            i < n,
            s@[i as int] == '"',
            i + 1 <= j <= n,
            p_str_body(s@, (i + 1) as int, Seq::empty()) == p_str_body(s@, j as int, out@),
        decreases n - j,
    {
        if j == n {
            return None;
        }
        let ghost j0 = j as int;
        let ghost out0 = out@;
        let c = s.get_char(j);
        if c == '"' {
            return Some((out, j + 1));
        }
        if c == '\\' {
            if n - j > 1 {
                let c2 = s.get_char(j + 1);
                if c2 == '"' {
                    crate::text::push_char(&mut out, '"');
                    proof {
                        assert(out@ =~= out0.push('"'));
                    }
                    j = j + 2;
                } else if c2 == '\\' {
                    crate::text::push_char(&mut out, '\\');
                    proof {
                        assert(out@ =~= out0.push('\\'));
                    }
                    j = j + 2;
                } else if c2 == 'u' {
                    if n - j > 5 {
                        let c3 = s.get_char(j + 2);
                        let c4 = s.get_char(j + 3);
                        if c3 == '0' && c4 == '0' {
                            let h1o = x_hex(s.get_char(j + 4));
                            let h2o = x_hex(s.get_char(j + 5));
                            match (h1o, h2o) {
                                (Some(h1), Some(h2)) => {
                                    let v: u8 = h1 * 16 + h2;
                                    if v < 32 {
                                        crate::text::push_char(&mut out, v as char);
                                        proof {
                                            assert(out@ =~= out0.push(v as char));
                                        }
                                        j = j + 6;
                                    } else {
                                        return None;
                                    }
                                },
                                _ => {
                                    return None;
                                },
                            }
                        } else {
                            return None;
                        }
                    } else {
                        return None;
                    }
                } else {
                    return None;
                }
            } else {
                return None;
            }
        } else if (c as u32) >= 32 {
            crate::text::push_char(&mut out, c);
            proof {
                assert(out@ =~= out0.push(c));
            }
            j = j + 1;
        } else {
            return None;
        }
        proof {
            assert(p_str_body(s@, j0, out0) == p_str_body(s@, j as int, out@));
        }
    }
}

/// Reads a JSON boolean.
fn x_bool(s: &str, i: usize) -> (r: Option<(bool, usize)>)
    ensures
        match r {
            Some((b, j)) => p_bool(s@, i as int) == Some((b, j as int)) && j <= s@.len(),
            None => p_bool(s@, i as int) is None,
        },
{
    let n = s.unicode_len();
    let pat_t = &['t', 'r', 'u', 'e'];
    let pat_f = &['f', 'a', 'l', 's', 'e'];
    proof {
        assert(pat_t@ =~= seq!['t', 'r', 'u', 'e']);
        assert(pat_f@ =~= seq!['f', 'a', 'l', 's', 'e']);
    }
    if crate::text::match_at_str(s, i, pat_t) {
        Some((true, i + 4))
    } else if crate::text::match_at_str(s, i, pat_f) {
        Some((false, i + 5))
    } else {
        None
    }
}

/// Reads a JSON list of numbers.
fn x_num_list(s: &str, i: usize) -> (r: Option<(Vec<usize>, usize)>)
    ensures
        match r {
            Some((l, j)) => p_num_list(s@, i as int) == Some((l@, j as int)) && j <= s@.len(),
            None => p_num_list(s@, i as int) is None,
        },
{
    let n = s.unicode_len();
    if !(i < n && s.get_char(i) == '[') {
        return None;
    }
    if i + 1 < n && s.get_char(i + 1) == ']' {
        let v: Vec<usize> = Vec::new();
        return Some((v, i + 2));
    }
    match x_num(s, i + 1) {
        None => None,
        Some((first, j0)) => {
            let mut acc: Vec<usize> = Vec::new();
            acc.push(first);
            proof {
                assert(acc@ =~= seq![first]);
            }
            let mut fuel: usize = n;
            let mut jj: usize = j0;
            loop
                invariant
                    n as nat == s@.len(),
                    jj <= n,
                    p_num_list(s@, i as int) == p_num_tail(
                        s@,
                        jj as int,
                        acc@,
                        fuel as nat,
                    ),
                decreases fuel,
            {
                if !(jj < n) {
                    return None;
                }
                let c = s.get_char(jj);
                if c == ']' {
                    return Some((acc, jj + 1));
                }
                if c == ',' && fuel > 0 {
                    match x_num(s, jj + 1) {
                        None => {
                            return None;
                        },
                        Some((v, j2)) => {
                            acc.push(v);
                            fuel = fuel - 1;
                            jj = j2;
                        },
                    }
                } else {
                    return None;
                }
            }
        },
    }
}

/// Reads a JSON list of strings.
fn x_str_list(s: &str, i: usize) -> (r: Option<(Vec<String>, usize)>)
    ensures
        match r {
            Some((l, j)) => p_str_list(s@, i as int) == Some(
                (l@.map_values(|x: String| x@), j as int),
            ) && j <= s@.len(),
            None => p_str_list(s@, i as int) is None,
        },
{
    let n = s.unicode_len();
    if !(i < n && s.get_char(i) == '[') {
        return None;
    }
    if i + 1 < n && s.get_char(i + 1) == ']' {
        let v: Vec<String> = Vec::new();
        proof {
            assert(v@.map_values(|x: String| x@) =~= Seq::<Seq<char>>::empty());
        }
        return Some((v, i + 2));
    }
    match x_str(s, i + 1) {
        None => None,
        Some((first, j0)) => {
            let mut acc: Vec<String> = Vec::new();
            let ghost firstv = first@;
            acc.push(first);
            proof {
                assert(acc@.map_values(|x: String| x@) =~= seq![firstv]);
            }
            let mut fuel: usize = n;
            let mut jj: usize = j0;
            loop
                invariant
                    n as nat == s@.len(),
                    jj <= n,
                    p_str_list(s@, i as int) == p_str_tail(
                        s@,
                        jj as int,
                        acc@.map_values(|x: String| x@),
                        fuel as nat,
                    ),
                decreases fuel,
            {
                if !(jj < n) {
                    return None;
                }
                let c = s.get_char(jj);
                if c == ']' {
                    return Some((acc, jj + 1));
                }
                if c == ',' && fuel > 0 {
                    match x_str(s, jj + 1) {
                        None => {
                            return None;
                        },
                        Some((v, j2)) => {
                            let ghost accv = acc@.map_values(|x: String| x@);
                            let ghost vv = v@;
                            acc.push(v);
                            proof {
                                assert(acc@.map_values(|x: String| x@) =~= accv.push(vv));
                            }
                            fuel = fuel - 1;
                            jj = j2;
                        },
                    }
                } else {
                    return None;
                }
            }
        },
    }
}

/// Reads the search command's payload.
fn x_search_payload(s: &str, i: usize) -> (r: Option<((String, bool, bool, bool, usize), usize)>)
    ensures
        match r {
            Some(((q, ar, al, so, num), j)) => p_search_payload(s@, i as int) == Some(
                ((q@, ar, al, so, num), j as int),
            ) && j <= s@.len(),
            None => p_search_payload(s@, i as int) is None,
        },
{
    proof {
        reveal(p_search_payload);
    }
    let n = s.unicode_len();
    if !(i < n && s.get_char(i) == '[') {
        return None;
    }
    match x_str(s, i + 1) {
        None => None,
        Some((q, j1)) => {
            if !(j1 < n && s.get_char(j1) == ',') {
                return None;
            }
            match x_bool(s, j1 + 1) {
                None => None,
                Some((ar, j2)) => {
                    if !(j2 < n && s.get_char(j2) == ',') {
                        return None;
                    }
                    match x_bool(s, j2 + 1) {
                        None => None,
                        Some((al, j3)) => {
                            if !(j3 < n && s.get_char(j3) == ',') {
                                return None;
                            }
                            match x_bool(s, j3 + 1) {
                                None => None,
                                Some((so, j4)) => {
                                    if !(j4 < n && s.get_char(j4) == ',') {
                                        return None;
                                    }
                                    match x_num(s, j4 + 1) {
                                        None => None,
                                        Some((num, j5)) => {
                                            if j5 < n && s.get_char(j5) == ']' {
                                                Some(((q, ar, al, so, num), j5 + 1))
                                            } else {
                                                None
                                            }
                                        },
                                    }
                                },
                            }
                        },
                    }
                },
            }
        },
    }
}

/// Reads the search reply's payload.
fn x_reply_search_payload(s: &str, i: usize) -> (r: Option<
    ((Vec<String>, Vec<String>, Vec<String>), usize),
>)
    ensures
        match r {
            Some(((albums, artists, songs), j)) => p_reply_search_payload(s@, i as int) == Some(
                (
                    (
                        albums@.map_values(|x: String| x@),
                        artists@.map_values(|x: String| x@),
                        songs@.map_values(|x: String| x@),
                    ),
                    j as int,
                ),
            ) && j <= s@.len(),
            None => p_reply_search_payload(s@, i as int) is None,
        },
{
    proof {
        reveal(p_reply_search_payload);
    }
    let n = s.unicode_len();
    let k1 = &['"', 'a', 'l', 'b', 'u', 'm', 's', '"', ':'];
    let k2 = &['"', 'a', 'r', 't', 'i', 's', 't', 's', '"', ':'];
    let k3 = &['"', 's', 'o', 'n', 'g', 's', '"', ':'];
    proof {
        assert(k1@ =~= quoted(t_albums()) + seq![':']);
        assert(k2@ =~= quoted(t_artists()) + seq![':']);
        assert(k3@ =~= quoted(t_songs()) + seq![':']);
    }
    if !(i < n && s.get_char(i) == '{' && crate::text::match_at_str(s, i + 1, k1)) {
        return None;
    }
    match x_str_list(s, i + 10) {
        None => None,
        Some((albums, j1)) => {
            if !(j1 < n && s.get_char(j1) == ',' && crate::text::match_at_str(s, j1 + 1, k2)) {
                return None;
            }
            match x_str_list(s, j1 + 11) {
                None => None,
                Some((artists, j2)) => {
                    if !(j2 < n && s.get_char(j2) == ',' && crate::text::match_at_str(
                        s,
                        j2 + 1,
                        k3,
                    )) {
                        return None;
                    }
                    match x_str_list(s, j2 + 9) {
                        None => None,
                        Some((songs, j3)) => {
                            if j3 < n && s.get_char(j3) == '}' {
                                Some(((albums, artists, songs), j3 + 1))
                            } else {
                                None
                            }
                        },
                    }
                },
            }
        },
    }
}

/// Decodes one command from the wire: `Some` exactly on the canonical
/// encoding of a command, `None` on everything else.
#[verifier::rlimit(100)]
pub fn decode_command(s: &str) -> (r: Option<Command>)
    ensures
        match r {
            Some(c) => dec_cmd(s@) == Some(c@),
            None => dec_cmd(s@) is None,
        },
{
    let n = s.unicode_len();
    if n == 0 {
        return None;
    }
    let c0 = s.get_char(0);
    if c0 == '"' {
        let p_play = &['"', 'P', 'l', 'a', 'y', '"'];
        let p_pause = &['"', 'P', 'a', 'u', 's', 'e', '"'];
        let p_toggle = &['"', 'T', 'o', 'g', 'g', 'l', 'e', '"'];
        let p_next = &['"', 'N', 'e', 'x', 't', '"'];
        let p_prev = &['"', 'P', 'r', 'e', 'v', '"'];
        let p_stop = &['"', 'S', 't', 'o', 'p', '"'];
        let p_clear = &['"', 'C', 'l', 'e', 'a', 'r', '"'];
        let p_statusreq = &['"', 'S', 't', 'a', 't', 'u', 's', 'R', 'e', 'q', '"'];
        proof {
            assert(p_play@ =~= quoted(t_play()));
            assert(p_pause@ =~= quoted(t_pause()));
            assert(p_toggle@ =~= quoted(t_toggle()));
            assert(p_next@ =~= quoted(t_next()));
            assert(p_prev@ =~= quoted(t_prev()));
            assert(p_stop@ =~= quoted(t_stop()));
            assert(p_clear@ =~= quoted(t_clear()));
            assert(p_statusreq@ =~= quoted(t_statusreq()));
            lemma_match_whole(s@, quoted(t_play()));
            lemma_match_whole(s@, quoted(t_pause()));
            lemma_match_whole(s@, quoted(t_toggle()));
            lemma_match_whole(s@, quoted(t_next()));
            lemma_match_whole(s@, quoted(t_prev()));
            lemma_match_whole(s@, quoted(t_stop()));
            lemma_match_whole(s@, quoted(t_clear()));
            lemma_match_whole(s@, quoted(t_statusreq()));
        }
        if n == 6 && crate::text::match_at_str(s, 0, p_play) {
            Some(Command::Play)
        } else if n == 7 && crate::text::match_at_str(s, 0, p_pause) {
            Some(Command::Pause)
        } else if n == 8 && crate::text::match_at_str(s, 0, p_toggle) {
            Some(Command::Toggle)
        } else if n == 6 && crate::text::match_at_str(s, 0, p_next) {
            Some(Command::Next)
        } else if n == 6 && crate::text::match_at_str(s, 0, p_prev) {
            Some(Command::Prev)
        } else if n == 6 && crate::text::match_at_str(s, 0, p_stop) {
            Some(Command::Stop)
        } else if n == 7 && crate::text::match_at_str(s, 0, p_clear) {
            Some(Command::Clear)
        } else if n == 11 && crate::text::match_at_str(s, 0, p_statusreq) {
            Some(Command::StatusReq)
        } else {
            None
        }
    } else if c0 == '{' {
        let h_ans = &[
            '{',
            '"',
            'A',
            'd',
            'd',
            'N',
            'e',
            'x',
            't',
            'S',
            'e',
            'a',
            'r',
            'c',
            'h',
            '"',
            ':',
        ];
        let h_as = &['{', '"', 'A', 'd', 'd', 'S', 'e', 'a', 'r', 'c', 'h', '"', ':'];
        let h_am = &['{', '"', 'A', 'd', 'd', 'M', 'a', 'n', 'y', '"', ':'];
        let h_an = &['{', '"', 'A', 'd', 'd', 'N', 'e', 'x', 't', '"', ':'];
        let h_a = &['{', '"', 'A', 'd', 'd', '"', ':'];
        let h_se = &['{', '"', 'S', 'e', 'a', 'r', 'c', 'h', '"', ':'];
        let h_st = &['{', '"', 'S', 't', 'a', 't', 'u', 's', '"', ':'];
        proof {
            assert(h_ans@ =~= obj_head(t_addnextsearch()));
            assert(h_as@ =~= obj_head(t_addsearch()));
            assert(h_am@ =~= obj_head(t_addmany()));
            assert(h_an@ =~= obj_head(t_addnext()));
            assert(h_a@ =~= obj_head(t_add()));
            assert(h_se@ =~= obj_head(t_search()));
            assert(h_st@ =~= obj_head(t_status()));
        }
        if crate::text::match_at_str(s, 0, h_ans) {
            match x_str(s, 17) {
                Some((q, j)) => {
                    if j < n && s.get_char(j) == '}' && j + 1 == n {
                        Some(Command::AddNextSearch(q))
                    } else {
                        None
                    }
                },
                None => None,
            }
        } else if crate::text::match_at_str(s, 0, h_as) {
            match x_str(s, 13) {
                Some((q, j)) => {
                    if j < n && s.get_char(j) == '}' && j + 1 == n {
                        Some(Command::AddSearch(q))
                    } else {
                        None
                    }
                },
                None => None,
            }
        } else if crate::text::match_at_str(s, 0, h_am) {
            match x_num_list(s, 11) {
                Some((l, j)) => {
                    if j < n && s.get_char(j) == '}' && j + 1 == n {
                        Some(Command::AddMany(l))
                    } else {
                        None
                    }
                },
                None => None,
            }
        } else if crate::text::match_at_str(s, 0, h_an) {
            match x_num(s, 11) {
                Some((v, j)) => {
                    if j < n && s.get_char(j) == '}' && j + 1 == n {
                        Some(Command::AddNext(v))
                    } else {
                        None
                    }
                },
                None => None,
            }
        } else if crate::text::match_at_str(s, 0, h_a) {
            match x_num(s, 7) {
                Some((v, j)) => {
                    if j < n && s.get_char(j) == '}' && j + 1 == n {
                        Some(Command::Add(v))
                    } else {
                        None
                    }
                },
                None => None,
            }
        } else if crate::text::match_at_str(s, 0, h_se) {
            match x_search_payload(s, 10) {
                Some(((q, ar, al, so, num), j)) => {
                    if j < n && s.get_char(j) == '}' && j + 1 == n {
                        Some(Command::Search(q, ar, al, so, num))
                    } else {
                        None
                    }
                },
                None => None,
            }
        } else if crate::text::match_at_str(s, 0, h_st) {
            match x_str(s, 10) {
                Some((t, j)) => {
                    if j < n && s.get_char(j) == '}' && j + 1 == n {
                        Some(Command::Status(t))
                    } else {
                        None
                    }
                },
                None => None,
            }
        } else {
            None
        }
    } else {
        None
    }
}

/// Decodes one reply from the wire: `Some` exactly on the canonical
/// encoding of a reply, `None` on everything else.
#[verifier::rlimit(100)]
pub fn decode_reply(s: &str) -> (r: Option<Reply>)
    ensures
        match r {
            Some(rep) => dec_reply(s@) == Some(rep@),
            None => dec_reply(s@) is None,
        },
{
    let n = s.unicode_len();
    if n == 0 {
        return None;
    }
    let c0 = s.get_char(0);
    if c0 == '"' {
        let p_none = &['"', 'N', 'o', 'n', 'e', '"'];
        proof {
            assert(p_none@ =~= quoted(t_none()));
            lemma_match_whole(s@, quoted(t_none()));
        }
        if n == 6 && crate::text::match_at_str(s, 0, p_none) {
            Some(Reply::Empty)
        } else {
            None
        }
    } else if c0 == '{' {
        let h_other = &['{', '"', 'O', 't', 'h', 'e', 'r', '"', ':'];
        let h_search = &['{', '"', 'S', 'e', 'a', 'r', 'c', 'h', '"', ':'];
        proof {
            assert(h_other@ =~= obj_head(t_other()));
            assert(h_search@ =~= obj_head(t_search()));
        }
        if crate::text::match_at_str(s, 0, h_other) {
            match x_str(s, 9) {
                Some((t, j)) => {
                    if j < n && s.get_char(j) == '}' && j + 1 == n {
                        Some(Reply::Other(t))
                    } else {
                        None
                    }
                },
                None => None,
            }
        } else if crate::text::match_at_str(s, 0, h_search) {
            match x_reply_search_payload(s, 10) {
                Some(((albums, artists, songs), j)) => {
                    if j < n && s.get_char(j) == '}' && j + 1 == n {
                        Some(Reply::Search { albums, artists, songs })
                    } else {
                        None
                    }
                },
                None => None,
            }
        } else {
            None
        }
    } else {
        None
    }
}

} // verus!
