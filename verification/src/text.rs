//! Character-level text building: decimal rendering, the `m:ss` clock, and
//! the player's status line.
//!
//! Everything here works over `Seq<char>` models; strings are grown one
//! character at a time through [`push_char`].

use vstd::prelude::*;

verus! {

/// Relies on `String::push`: appends the given character to the end of the
/// string.
#[verifier::external_body]
pub fn push_char(s: &mut String, c: char)
    ensures
        final(s)@ == old(s)@ + seq![c],
{
    s.push(c)
}

/// `pat` occurs in `s` at position `i`.
pub open spec fn match_at(s: Seq<char>, i: int, pat: Seq<char>) -> bool {
    0 <= i && i + pat.len() <= s.len() && (forall|k: int|
        0 <= k < pat.len() ==> #[trigger] pat[k] == s[i + k])
}

/// Whether `pat` occurs in `s` at character position `i`.
pub fn match_at_str(s: &str, i: usize, pat: &[char]) -> (b: bool)
    ensures
        b == match_at(s@, i as int, pat@),
{
    let n = s.unicode_len();
    if i > n || pat.len() > n - i {
        return false;
    }
    let mut k: usize = 0;
    while k < pat.len()
        invariant
            i + pat@.len() <= s@.len(),
            i + pat@.len() <= usize::MAX,
            k <= pat@.len(),
            forall|j: int| 0 <= j < k ==> #[trigger] pat@[j] == s@[i + j],
        decreases pat@.len() - k,
    {
        if s.get_char(i + k) != pat[k] {
            return false;
        }
        k = k + 1;
    }
    true
}

/// The decimal digit character for a value below ten.
pub open spec fn dec_digit(d: nat) -> char
    recommends
        d < 10,
{
    ((48 + d) as u8) as char
}

/// The decimal rendering of a number: most significant digit first, no
/// leading zeros, a single `'0'` for zero.
pub open spec fn dec_of(n: nat) -> Seq<char>
    decreases n,
{
    if n < 10 {
        seq![dec_digit(n)]
    } else {
        dec_of(n / 10) + seq![dec_digit(n % 10)]
    }
}

/// Appends the decimal rendering of `n`.
pub fn push_dec(out: &mut String, n: u128)
    ensures
        final(out)@ == old(out)@ + dec_of(n as nat),
    decreases n,
{
    if n < 10 {
        let d: u8 = (n as u8) + 48;
        push_char(out, d as char);
    } else {
        push_dec(out, n / 10);
        let d: u8 = ((n % 10) as u8) + 48;
        push_char(out, d as char);
        proof {
            assert(out@ =~= old(out)@ + dec_of(n as nat));
        }
    }
}

/// Minutes and seconds as `m:ss`, the seconds always two digits.
pub open spec fn minsec_of(secs: nat) -> Seq<char> {
    dec_of(secs / 60) + seq![':'] + (if secs % 60 < 10 {
        seq!['0'] + dec_of(secs % 60)
    } else {
        dec_of(secs % 60)
    })
}

/// Appends `secs` rendered as `m:ss`.
pub fn push_minsec(out: &mut String, secs: u64)
    ensures
        final(out)@ == old(out)@ + minsec_of(secs as nat),
{
    push_dec(out, (secs / 60) as u128);
    push_char(out, ':');
    let rem: u64 = secs % 60;
    if rem < 10 {
        push_char(out, '0');
    }
    push_dec(out, rem as u128);
    proof {
        assert(out@ =~= old(out)@ + minsec_of(secs as nat));
    }
}

/// Percent complete: zero when nothing has played yet or the duration is
/// unknown, otherwise elapsed over duration, in whole percent, rounded
/// down.
pub open spec fn pct_of(prog: u64, dur: u64) -> nat {
    if prog == 0 || dur == 0 {
        0
    } else {
        ((prog as int * 100) / (dur as int)) as nat
    }
}

/// The fixed reply when no track is current.
pub open spec fn no_status_text() -> Seq<char> {
    seq!['n', 'o', 't', 'h', 'i', 'n', 'g', ' ', 't', 'o', ' ', 'd', 'i', 's', 'p', 'l', 'a', 'y']
}

/// The status line: optional `artist - ` prefix, the title, then on a
/// second line the playing flag, position and queue length, elapsed over
/// duration as clocks, and percent complete.
pub open spec fn status_line_of(
    artist: Option<Seq<char>>,
    title: Seq<char>,
    playing: bool,
    pos1: nat,
    len: nat,
    prog: u64,
    dur: u64,
) -> Seq<char> {
    (match artist {
        Some(a) => a + seq![' ', '-', ' '],
        None => Seq::empty(),
    }) + title + seq!['\n', '['] + (if playing {
        seq!['p', 'l', 'a', 'y', 'i', 'n', 'g']
    } else {
        seq!['p', 'a', 'u', 's', 'e', 'd']
    }) + seq![']', ' ', ' ', '#'] + dec_of(pos1) + seq!['/'] + dec_of(len) + seq![' ', ' ']
        + minsec_of(prog as nat) + seq!['/'] + minsec_of(dur as nat) + seq![' ', '(']
        + dec_of(pct_of(prog, dur)) + seq!['%', ')']
}

/// Renders the status line for the given now-playing facts.
#[verifier::rlimit(100)]
pub fn status_line(
    artist: &Option<String>,
    title: &str,
    playing: bool,
    pos1: u128,
    len: u128,
    prog: u64,
    dur: u64,
) -> (r: String)
    ensures
        r@ == status_line_of(
            match artist {
                Some(a) => Some(a@),
                None => None,
            },
            title@,
            playing,
            pos1 as nat,
            len as nat,
            prog,
            dur,
        ),
{
    let ghost art: Seq<char> = match artist {
        Some(a) => a@ + seq![' ', '-', ' '],
        None => Seq::empty(),
    };
    let mut out = String::new();
    match artist {
        Some(a) => {
            out.append(a.as_str());
            push_char(&mut out, ' ');
            push_char(&mut out, '-');
            push_char(&mut out, ' ');
        }
        None => {}
    }
    proof {
        assert(out@ =~= art);
    }
    out.append(title);
    push_char(&mut out, '\n');
    push_char(&mut out, '[');
    if playing {
        push_char(&mut out, 'p');
        push_char(&mut out, 'l');
        push_char(&mut out, 'a');
        push_char(&mut out, 'y');
        push_char(&mut out, 'i');
        push_char(&mut out, 'n');
        push_char(&mut out, 'g');
    } else {
        push_char(&mut out, 'p');
        push_char(&mut out, 'a');
        push_char(&mut out, 'u');
        push_char(&mut out, 's');
        push_char(&mut out, 'e');
        push_char(&mut out, 'd');
    }
    proof {
        let flag = if playing {
            seq!['p', 'l', 'a', 'y', 'i', 'n', 'g']
        } else {
            seq!['p', 'a', 'u', 's', 'e', 'd']
        };
        assert(out@ =~= art + title@ + seq!['\n', '['] + flag);
    }
    let ghost head: Seq<char> = out@;
    push_char(&mut out, ']');
    push_char(&mut out, ' ');
    push_char(&mut out, ' ');
    push_char(&mut out, '#');
    push_dec(&mut out, pos1);
    push_char(&mut out, '/');
    push_dec(&mut out, len);
    proof {
        assert(out@ =~= head + seq![']', ' ', ' ', '#'] + dec_of(pos1 as nat) + seq!['/']
            + dec_of(len as nat));
    }
    let ghost mid: Seq<char> = out@;
    push_char(&mut out, ' ');
    push_char(&mut out, ' ');
    push_minsec(&mut out, prog);
    push_char(&mut out, '/');
    push_minsec(&mut out, dur);
    push_char(&mut out, ' ');
    push_char(&mut out, '(');
    let pct: u128 = if prog == 0 || dur == 0 {
        0
    } else {
        (prog as u128) * 100 / (dur as u128)
    };
    proof {
        assert(pct as nat == pct_of(prog, dur));
    }
    push_dec(&mut out, pct);
    push_char(&mut out, '%');
    push_char(&mut out, ')');
    proof {
        assert(out@ =~= mid + seq![' ', ' '] + minsec_of(prog as nat) + seq!['/']
            + minsec_of(dur as nat) + seq![' ', '('] + dec_of(pct_of(prog, dur)) + seq!['%', ')']);
        assert(out@ =~= status_line_of(
            match artist {
                Some(a) => Some(a@),
                None => None,
            },
            title@,
            playing,
            pos1 as nat,
            len as nat,
            prog,
            dur,
        ));
    }
    out
}

/// The fixed "nothing to display" reply.
pub fn no_status() -> (r: String)
    ensures
        r@ == no_status_text(),
{
    let mut out = String::new();
    push_char(&mut out, 'n');
    push_char(&mut out, 'o');
    push_char(&mut out, 't');
    push_char(&mut out, 'h');
    push_char(&mut out, 'i');
    push_char(&mut out, 'n');
    push_char(&mut out, 'g');
    push_char(&mut out, ' ');
    push_char(&mut out, 't');
    push_char(&mut out, 'o');
    push_char(&mut out, ' ');
    push_char(&mut out, 'd');
    push_char(&mut out, 'i');
    push_char(&mut out, 's');
    push_char(&mut out, 'p');
    push_char(&mut out, 'l');
    push_char(&mut out, 'a');
    push_char(&mut out, 'y');
    proof {
        assert(out@ =~= no_status_text());
    }
    out
}

} // verus!
