//! Playback control core for a background music daemon.
//!
//! The daemon keeps a persistent playback session against a remote media
//! catalog and exposes it to short-lived client processes over a local
//! control socket. This crate holds the verified core: the ordered playback
//! queue, the player state machine that turns the queue into timed engine
//! actions, the daemon's command routing, and the wire codec for the
//! command/reply protocol. Socket handling, the audio engine and the remote
//! catalog are outside collaborators; they are driven from a thin
//! unverified shell around this library.

use vstd::prelude::*;

pub mod codec;
pub mod daemon;
pub mod error;
pub mod player;
pub mod protocol;
pub mod queue;
pub mod subcmd;
pub mod text;

verus! {

/// Joins words into a single query string, each word preceded by a space.
pub open spec fn collapsed(v: Seq<Seq<char>>) -> Seq<char>
    decreases v.len(),
{
    if v.len() == 0 {
        Seq::empty()
    } else {
        collapsed(v.drop_last()) + seq![' '] + v.last()
    }
}

/// Folds the words of a multi-word query into one string, in order, a
/// space before each word.
pub fn collapse(v: Vec<String>) -> (r: String)
    ensures
        r@ == collapsed(v@.map_values(|s: String| s@)),
{
    let mut r = String::new();
    let mut i: usize = 0;
    proof {
        assert(v@.map_values(|s: String| s@).subrange(0, 0) =~= Seq::<Seq<char>>::empty());
        assert(collapsed(v@.map_values(|s: String| s@).subrange(0, 0)) =~= r@);
    }
    while i < v.len()
        invariant
            i <= v.len(),
            r@ == collapsed(v@.map_values(|s: String| s@).subrange(0, i as int)),
        decreases v.len() - i,
    {
        r.append(" ");
        r.append(v[i].as_str());
        proof {
            reveal_strlit(" ");
            let words = v@.map_values(|s: String| s@);
            assert(" "@ =~= seq![' ']);
            assert(words.subrange(0, i + 1).drop_last() =~= words.subrange(0, i as int));
            assert(words.subrange(0, i + 1).last() == v@[i as int]@);
            assert(r@ =~= collapsed(words.subrange(0, i + 1)));
        }
        i = i + 1;
    }
    proof {
        let words = v@.map_values(|s: String| s@);
        assert(words.subrange(0, v@.len() as int) =~= words);
    }
    r
}

} // verus!
