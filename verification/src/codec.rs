//! The compact character form of a pool: one character per die kind, for
//! sharing a pool outside the engine.

use vstd::prelude::*;
use vstd::string::StrSliceExecFns;
use vstd::string::StringExecFns;

use crate::dice::Die;
use crate::pool::Pool;

verus! {

/// The compact character standing for a die kind.
pub open spec fn die_char(d: Die) -> char {
    match d {
        Die::Ability => 'A',
        Die::Proficiency => 'P',
        Die::Difficulty => 'D',
        Die::Challange => 'C',
        Die::Boost => 'B',
        Die::Setback => 'S',
        Die::Force => 'F',
    }
}

/// The die kind a character stands for, if any.
pub open spec fn char_die(c: char) -> Option<Die> {
    if c == 'A' {
        Some(Die::Ability)
    } else if c == 'P' {
        Some(Die::Proficiency)
    } else if c == 'D' {
        Some(Die::Difficulty)
    } else if c == 'C' {
        Some(Die::Challange)
    } else if c == 'B' {
        Some(Die::Boost)
    } else if c == 'S' {
        Some(Die::Setback)
    } else if c == 'F' {
        Some(Die::Force)
    } else {
        None
    }
}

/// The compact form of a dice sequence: one character per die, in order.
pub open spec fn encode_seq(s: Seq<Die>) -> Seq<char>
    decreases s.len(),
{
    if s.len() == 0 {
        Seq::empty()
    } else {
        encode_seq(s.drop_last()) + seq![die_char(s.last())]
    }
}

/// The dice a character sequence stands for: supported characters in
/// order, unsupported characters ignored.
pub open spec fn decode_seq(s: Seq<char>) -> Seq<Die>
    decreases s.len(),
{
    if s.len() == 0 {
        Seq::empty()
    } else {
        decode_seq(s.drop_last()) + (match char_die(s.last()) {
            Some(d) => seq![d],
            None => Seq::empty(),
        })
    }
}

/// Decoding inverts encoding exactly: the compact form of any dice
/// sequence decodes back to that same sequence.
pub proof fn lemma_codec_roundtrip(dice: Seq<Die>)
    ensures
        decode_seq(encode_seq(dice)) == dice,
    decreases dice.len(),
{
    if dice.len() == 0 {
        assert(decode_seq(encode_seq(dice)) =~= dice);
    } else {
        lemma_codec_roundtrip(dice.drop_last());
        let e = encode_seq(dice);
        assert(e.drop_last() =~= encode_seq(dice.drop_last()));
        assert(e.last() == die_char(dice.last()));
        match dice.last() {
            Die::Ability => {},
            Die::Proficiency => {},
            Die::Difficulty => {},
            Die::Challange => {},
            Die::Boost => {},
            Die::Setback => {},
            Die::Force => {},
        }
        assert(char_die(die_char(dice.last())) == Some(dice.last()));
        assert(decode_seq(e) =~= dice);
    }
}

/// The one-character string for a die kind.
fn die_char_str(d: Die) -> (r: &'static str)
    ensures
        r@ == seq![die_char(d)],
{
    let r: &'static str = match d {
        Die::Ability => "A",
        Die::Proficiency => "P",
        Die::Difficulty => "D",
        Die::Challange => "C",
        Die::Boost => "B",
        Die::Setback => "S",
        Die::Force => "F",
    };
    proof {
        reveal_strlit("A");
        reveal_strlit("P");
        reveal_strlit("D");
        reveal_strlit("C");
        reveal_strlit("B");
        reveal_strlit("S");
        reveal_strlit("F");
    }
    assert(r@ =~= seq![die_char(d)]);
    r
}

/// Encodes a pool's dice, in their canonical order, one character per die.
pub fn encode(pool: &Pool) -> (r: String)
    ensures
        r@ == encode_seq(pool@),
{
    let dice = pool.iter();
    let mut out = String::new();
    assert(pool@.take(0) =~= Seq::<Die>::empty());
    assert(out@ =~= encode_seq(pool@.take(0)));
    let mut i: usize = 0;
    while i < dice.len()
        invariant
            i <= dice@.len(),
            dice@ == pool@,
            out@ == encode_seq(pool@.take(i as int)),
        decreases dice@.len() - i,
    {
        out.append(die_char_str(dice[i]));
        proof {
            assert(pool@.take(i + 1).drop_last() =~= pool@.take(i as int));
            assert(pool@.take(i + 1).last() == pool@[i as int]);
        }
        i += 1;
    }
    assert(pool@.take(pool@.len() as int) =~= pool@);
    out
}

/// Decodes a compact form back into a pool: each supported character adds
/// its die, unsupported characters are ignored, and the result is sorted
/// into canonical order.
pub fn decode(s: &str) -> (r: Pool)
    ensures
        r.well_formed(),
        r@.to_multiset() == decode_seq(s@).to_multiset(),
        r@.len() == decode_seq(s@).len(),
{
    let n = s.unicode_len();
    let mut v: Vec<Die> = Vec::new();
    assert(s@.take(0) =~= Seq::<char>::empty());
    assert(v@ =~= decode_seq(s@.take(0)));
    let mut i: usize = 0;
    while i < n
        invariant
            i <= n,
            n == s@.len(),
            v@ == decode_seq(s@.take(i as int)),
        decreases n - i,
    {
        let c = s.get_char(i);
        proof {
            assert(s@.take(i + 1).drop_last() =~= s@.take(i as int));
            assert(s@.take(i + 1).last() == s@[i as int]);
        }
        if c == 'A' {
            v.push(Die::Ability);
        } else if c == 'P' {
            v.push(Die::Proficiency);
        } else if c == 'D' {
            v.push(Die::Difficulty);
        } else if c == 'C' {
            v.push(Die::Challange);
        } else if c == 'B' {
            v.push(Die::Boost);
        } else if c == 'S' {
            v.push(Die::Setback);
        } else if c == 'F' {
            v.push(Die::Force);
        }
        assert(v@ =~= decode_seq(s@.take(i + 1)));
        i += 1;
    }
    assert(s@.take(s@.len() as int) =~= s@);
    Pool::new(v)
}

} // verus!
