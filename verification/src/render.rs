//! Rendering a net result as a display string.
//!
//! Each present symbol emits a pluralized count phrase, in a fixed priority
//! order; the phrases are joined with a comma. An all-zero result renders
//! as the blank sentinel instead of an empty string.

use vstd::prelude::*;
use vstd::string::StringExecFns;

use crate::aggregate::AggregatedSymbols;
use crate::symbols::Symbol;

verus! {

/// The decimal digit character for a value below ten.
pub open spec fn digit_char(d: int) -> char {
    if d == 0 {
        '0'
    } else if d == 1 {
        '1'
    } else if d == 2 {
        '2'
    } else if d == 3 {
        '3'
    } else if d == 4 {
        '4'
    } else if d == 5 {
        '5'
    } else if d == 6 {
        '6'
    } else if d == 7 {
        '7'
    } else if d == 8 {
        '8'
    } else {
        '9'
    }
}

/// The decimal rendering of a number, most significant digit first.
pub open spec fn dec_str(n: nat) -> Seq<char>
    decreases n,
{
    if n < 10 {
        seq![digit_char(n as int)]
    } else {
        dec_str(n / 10) + seq![digit_char((n % 10) as int)]
    }
}

/// A decimal rendering is never empty.
proof fn lemma_dec_str_nonempty(n: nat)
    ensures
        dec_str(n).len() >= 1,
    decreases n,
{
    if n >= 10 {
        lemma_dec_str_nonempty(n / 10);
    }
}

/// The count phrase for a present symbol: the count, then the singular
/// label for a count of one, else the plural label.
pub open spec fn count_phrase(c: nat, singular: Seq<char>, plural: Seq<char>) -> Seq<char> {
    dec_str(c) + (if c == 1 {
        singular
    } else {
        plural
    })
}

/// The phrase of one symbol as a list: empty when the symbol is absent,
/// else the single count phrase.
pub open spec fn maybe_phrase(c: nat, singular: Seq<char>, plural: Seq<char>) -> Seq<Seq<char>> {
    if c == 0 {
        Seq::empty()
    } else {
        seq![count_phrase(c, singular, plural)]
    }
}

/// The phrases of a result, in the fixed display priority order.
pub open spec fn phrase_list(a: AggregatedSymbols) -> Seq<Seq<char>> {
    maybe_phrase(a.count_spec(Symbol::Success), " Success"@, " Successes"@) + maybe_phrase(
        a.count_spec(Symbol::Failure),
        " Failure"@,
        " Failures"@,
    ) + maybe_phrase(a.count_spec(Symbol::Advantage), " Advantage"@, " Advantages"@)
        + maybe_phrase(a.count_spec(Symbol::Threat), " Threat"@, " Threats"@) + maybe_phrase(
        a.count_spec(Symbol::Triumph),
        " Triumph"@,
        " Triumphs"@,
    ) + maybe_phrase(a.count_spec(Symbol::Despair), " Despair"@, " Despairs"@) + maybe_phrase(
        a.count_spec(Symbol::LightSide),
        " Light Side"@,
        " Light Side"@,
    ) + maybe_phrase(a.count_spec(Symbol::DarkSide), " Dark Side"@, " Dark Side"@)
}

/// Phrases joined with a comma separator.
pub open spec fn join_comma(l: Seq<Seq<char>>) -> Seq<char>
    decreases l.len(),
{
    if l.len() == 0 {
        Seq::empty()
    } else if l.len() == 1 {
        l[0]
    } else {
        join_comma(l.drop_last()) + ", "@ + l.last()
    }
}

/// The rendering of a result: the joined phrases, or the blank sentinel
/// when no symbol is present.
pub open spec fn format_spec(a: AggregatedSymbols) -> Seq<char> {
    if phrase_list(a).len() == 0 {
        "<blank>"@
    } else {
        join_comma(phrase_list(a))
    }
}

/// The string for one decimal digit.
fn digit_str(d: usize) -> (r: &'static str)
    requires
        d < 10,
    ensures
        r@ == seq![digit_char(d as int)],
{
    let r: &'static str = match d {
        0 => "0",
        1 => "1",
        2 => "2",
        3 => "3",
        4 => "4",
        5 => "5",
        6 => "6",
        7 => "7",
        8 => "8",
        _ => "9",
    };
    proof {
        reveal_strlit("0");
        reveal_strlit("1");
        reveal_strlit("2");
        reveal_strlit("3");
        reveal_strlit("4");
        reveal_strlit("5");
        reveal_strlit("6");
        reveal_strlit("7");
        reveal_strlit("8");
        reveal_strlit("9");
    }
    assert(r@ =~= seq![digit_char(d as int)]);
    r
}

/// Appends the decimal rendering of a number.
fn push_decimal(out: &mut String, n: usize)
    ensures
        final(out)@ == old(out)@ + dec_str(n as nat),
    decreases n,
{
    if n < 10 {
        out.append(digit_str(n));
        assert(final(out)@ =~= old(out)@ + dec_str(n as nat));
    } else {
        push_decimal(out, n / 10);
        out.append(digit_str(n % 10));
        assert(final(out)@ =~= old(out)@ + dec_str(n as nat));
    }
}

/// Appends one symbol's count phrase, preceded by the separator when a
/// phrase is already present, and records it in the ghost phrase list.
fn append_phrase(
    out: &mut String,
    c: usize,
    singular: &str,
    plural: &str,
    Ghost(list): Ghost<Seq<Seq<char>>>,
) -> (res: Ghost<Seq<Seq<char>>>)
    requires
        c > 0,
        old(out)@ == join_comma(list),
        old(out)@.len() == 0 <==> list.len() == 0,
    ensures
        res@ == list.push(count_phrase(c as nat, singular@, plural@)),
        final(out)@ == join_comma(res@),
        final(out)@.len() > 0,
{
    let ghost phrase = count_phrase(c as nat, singular@, plural@);
    if !out.as_str().is_empty() {
        out.append(", ");
    }
    push_decimal(out, c);
    if c == 1 {
        out.append(singular);
    } else {
        out.append(plural);
    }
    proof {
        lemma_dec_str_nonempty(c as nat);
        let l2 = list.push(phrase);
        assert(l2.drop_last() =~= list);
        assert(l2.last() == phrase);
        if list.len() == 0 {
            assert(join_comma(l2) == phrase);
        } else {
            assert(join_comma(l2) == join_comma(list) + ", "@ + phrase);
        }
        assert(final(out)@ =~= join_comma(l2));
    }
    Ghost(list.push(phrase))
}

impl AggregatedSymbols {
    /// Renders this result for display: one pluralized count phrase per
    /// present symbol in the fixed priority order, joined by commas; the
    /// blank sentinel when nothing is present.
    #[verifier::rlimit(100)]
    pub fn format(&self) -> (r: String)
        ensures
            r@ == format_spec(*self),
    {
        let mut out = String::new();
        let ghost mut list: Seq<Seq<char>> = Seq::empty();
        assert(out@ =~= join_comma(list));

        let c_success = self.count(Symbol::Success);
        let c_failure = self.count(Symbol::Failure);
        let c_advantage = self.count(Symbol::Advantage);
        let c_threat = self.count(Symbol::Threat);
        let c_triumph = self.count(Symbol::Triumph);
        let c_despair = self.count(Symbol::Despair);
        let c_light = self.count(Symbol::LightSide);
        let c_dark = self.count(Symbol::DarkSide);

        let ghost m1 = maybe_phrase(self.count_spec(Symbol::Success), " Success"@, " Successes"@);
        let ghost m2 = maybe_phrase(self.count_spec(Symbol::Failure), " Failure"@, " Failures"@);
        let ghost m3 = maybe_phrase(
            self.count_spec(Symbol::Advantage),
            " Advantage"@,
            " Advantages"@,
        );
        let ghost m4 = maybe_phrase(self.count_spec(Symbol::Threat), " Threat"@, " Threats"@);
        let ghost m5 = maybe_phrase(self.count_spec(Symbol::Triumph), " Triumph"@, " Triumphs"@);
        let ghost m6 = maybe_phrase(self.count_spec(Symbol::Despair), " Despair"@, " Despairs"@);
        let ghost m7 = maybe_phrase(
            self.count_spec(Symbol::LightSide),
            " Light Side"@,
            " Light Side"@,
        );
        let ghost m8 = maybe_phrase(
            self.count_spec(Symbol::DarkSide),
            " Dark Side"@,
            " Dark Side"@,
        );

        if c_success > 0 {
            let g = append_phrase(&mut out, c_success, " Success", " Successes", Ghost(list));
            proof {
                list = g@;
            }
        }
        assert(list =~= m1);
        if c_failure > 0 {
            let g = append_phrase(&mut out, c_failure, " Failure", " Failures", Ghost(list));
            proof {
                list = g@;
            }
        }
        assert(list =~= m1 + m2);
        if c_advantage > 0 {
            let g = append_phrase(&mut out, c_advantage, " Advantage", " Advantages", Ghost(list));
            proof {
                list = g@;
            }
        }
        assert(list =~= m1 + m2 + m3);
        if c_threat > 0 {
            let g = append_phrase(&mut out, c_threat, " Threat", " Threats", Ghost(list));
            proof {
                list = g@;
            }
        }
        assert(list =~= m1 + m2 + m3 + m4);
        if c_triumph > 0 {
            let g = append_phrase(&mut out, c_triumph, " Triumph", " Triumphs", Ghost(list));
            proof {
                list = g@;
            }
        }
        assert(list =~= m1 + m2 + m3 + m4 + m5);
        if c_despair > 0 {
            let g = append_phrase(&mut out, c_despair, " Despair", " Despairs", Ghost(list));
            proof {
                list = g@;
            }
        }
        assert(list =~= m1 + m2 + m3 + m4 + m5 + m6);
        if c_light > 0 {
            let g = append_phrase(&mut out, c_light, " Light Side", " Light Side", Ghost(list));
            proof {
                list = g@;
            }
        }
        assert(list =~= m1 + m2 + m3 + m4 + m5 + m6 + m7);
        if c_dark > 0 {
            let g = append_phrase(&mut out, c_dark, " Dark Side", " Dark Side", Ghost(list));
            proof {
                list = g@;
            }
        }
        assert(list =~= phrase_list(*self));

        if out.as_str().is_empty() {
            assert(phrase_list(*self).len() == 0);
            String::from_str("<blank>")
        } else {
            assert(phrase_list(*self).len() > 0);
            out
        }
    }
}

} // verus!
