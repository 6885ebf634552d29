use vstd::prelude::*;

use crate::configuration::{
    ElectronConfiguration,
    Occupancy,
    counts_of,
    lemma_counts_determine,
    lemma_occupied_len,
    levels_in_order,
    occupied_levels,
};
use crate::error::ErrorView;
use crate::orbital::{Block, EnergyLevel, block_capacity, block_letter};
use crate::parser::{
    TokenParts,
    configuration_outcome,
    configure,
    empty_counts,
    is_separator,
    lemma_failure_persists,
    split_state,
    token_outcome,
    token_parts,
    tokens_of,
};

verus! {

/// The character of the decimal digit `d`.
pub open spec fn digit_char(d: nat) -> char
    recommends
        d < 10,
{
    (d + 48) as char
}

/// Decimal notation of `k`, without leading zeros.
pub open spec fn decimal(k: nat) -> Seq<char>
    decreases k,
{
    if k < 10 {
        seq![digit_char(k)]
    } else {
        decimal(k / 10).push(digit_char(k % 10))
    }
}

/// The configuration token `{n}{b}{k}`: shell digit, block letter, count.
pub open spec fn suborbital_token(n: nat, b: Block, k: nat) -> Seq<char> {
    seq![digit_char(n), block_letter(b)] + decimal(k)
}

proof fn lemma_decimal_digits(prefix: Seq<char>, k: nat)
    requires
        token_parts(prefix).letter is Some,
        token_parts(prefix).count is None,
    ensures
        token_parts(prefix + decimal(k)) == (TokenParts { count: Some(k), ..token_parts(prefix) }),
        decimal(k).len() > 0,
        forall|i: int| 0 <= i < decimal(k).len() ==> !is_separator(#[trigger] decimal(k)[i]),
    decreases k,
{
    let d = digit_char(k % 10);
    assert(d as int == k % 10 + 48);
    if k < 10 {
        assert((prefix + decimal(k)).drop_last() =~= prefix);
    } else {
        lemma_decimal_digits(prefix, k / 10);
        assert((prefix + decimal(k)).drop_last() =~= prefix + decimal(k / 10));
        assert forall|i: int| 0 <= i < decimal(k).len() implies !is_separator(
            #[trigger] decimal(k)[i],
        ) by {
            if i < decimal(k / 10).len() {
                assert(decimal(k)[i] == decimal(k / 10)[i]);
            }
        }
    }
}

/// A string with no separator is a single token being read.
proof fn lemma_split_unbroken(s: Seq<char>)
    requires
        forall|i: int| 0 <= i < s.len() ==> !is_separator(#[trigger] s[i]),
    ensures
        split_state(s) == (Seq::<Seq<char>>::empty(), s),
    decreases s.len(),
{
    if s.len() > 0 {
        let init = s.drop_last();
        assert forall|i: int| 0 <= i < init.len() implies !is_separator(#[trigger] init[i]) by {
            assert(init[i] == s[i]);
        }
        lemma_split_unbroken(init);
        assert(init.push(s.last()) =~= s);
    }
}

proof fn lemma_token_reads(n: nat, b: Block, k: nat)
    requires
        1 <= n <= 8,
    ensures
        token_parts(suborbital_token(n, b, k)) == (TokenParts {
            shell: Some(digit_char(n)),
            letter: Some(block_letter(b)),
            count: Some(k),
        }),
        tokens_of(suborbital_token(n, b, k)) == seq![suborbital_token(n, b, k)],
{
    let shell = seq![digit_char(n)];
    let prefix = seq![digit_char(n), block_letter(b)];
    assert(digit_char(n) as int == n + 48);
    assert(shell.drop_last() =~= Seq::<char>::empty());
    assert(token_parts(Seq::<char>::empty()) == (TokenParts { shell: None, letter: None, count: None }));
    assert(token_parts(shell) == (TokenParts {
        shell: Some(digit_char(n)),
        letter: None,
        count: None,
    }));
    assert(prefix.drop_last() =~= shell);
    assert(token_parts(prefix) == (TokenParts {
        shell: Some(digit_char(n)),
        letter: Some(block_letter(b)),
        count: None,
    }));
    lemma_decimal_digits(prefix, k);
    let t = suborbital_token(n, b, k);
    assert forall|i: int| 0 <= i < t.len() implies !is_separator(#[trigger] t[i]) by {
        if i >= 2 {
            assert(t[i] == decimal(k)[i - 2]);
        }
    }
    lemma_split_unbroken(t);
}

/// A token `{n}{b}{k}` with a shell from 1 to 8 and a count that block `b`
/// can hold reads as shell `n`, block `b`, `k` electrons. A configuration
/// string of that one token holds `k` electrons in block `b` of shell `n`
/// and none elsewhere, and in the configuration parsed from it, level `n`
/// has quantum number `n` and `k` electrons in block `b`.
pub proof fn lemma_valid_token_round_trip(n: nat, b: Block, k: nat)
    requires
        1 <= n <= 8,
        k <= block_capacity(b),
    ensures
        token_outcome(suborbital_token(n, b, k)) == Ok::<(nat, Block, nat), ErrorView>((n, b, k)),
        configuration_outcome(suborbital_token(n, b, k)) == Ok::<Seq<Occupancy>, ErrorView>(
            empty_counts().update(n - 1, Occupancy::zero().with(b, k)),
        ),
        forall|c: ElectronConfiguration|
            levels_in_order(c@) && configuration_outcome(suborbital_token(n, b, k)) == Ok::<
                Seq<Occupancy>,
                ErrorView,
            >(#[trigger] c.counts()) ==> c@[n - 1].spec_quantum_number() == n && c@[n
                - 1].count(b) == k,
{
    lemma_token_reads(n, b, k);
    let t = suborbital_token(n, b, k);
    let tokens = seq![t];
    assert(tokens.drop_last() =~= Seq::<Seq<char>>::empty());
    assert(tokens.last() == t);
    assert(configure(Seq::<Seq<char>>::empty()) == Ok::<Seq<Occupancy>, ErrorView>(empty_counts()));
    assert(empty_counts()[n - 1] == Occupancy::zero());
    assert(configure(tokens) == Ok::<Seq<Occupancy>, ErrorView>(
        empty_counts().update(n - 1, Occupancy::zero().with(b, k)),
    ));
    assert forall|c: ElectronConfiguration|
        levels_in_order(c@) && configuration_outcome(t) == Ok::<Seq<Occupancy>, ErrorView>(
            #[trigger] c.counts(),
        ) implies c@[n - 1].spec_quantum_number() == n && c@[n - 1].count(b) == k by {
        assert(c.counts()[n - 1] == Occupancy::zero().with(b, k));
    }
}

/// A token `{n}{b}{k}` whose count is more than block `b` holds fails with
/// `CapacityExceeded`, and a configuration string of that token yields no
/// configuration, only that error.
pub proof fn lemma_overfull_token_fails(n: nat, b: Block, k: nat)
    requires
        1 <= n <= 8,
        k > block_capacity(b),
    ensures
        ({
            let t = suborbital_token(n, b, k);
            let e = ErrorView::CapacityExceeded {
                context: t,
                limit: block_capacity(b),
                actual: if k > usize::MAX {
                    usize::MAX as nat
                } else {
                    k
                },
            };
            &&& token_outcome(t) == Err::<(nat, Block, nat), ErrorView>(e)
            &&& configuration_outcome(t) == Err::<Seq<Occupancy>, ErrorView>(e)
        }),
{
    lemma_token_reads(n, b, k);
    let t = suborbital_token(n, b, k);
    assert(seq![t].drop_last() =~= Seq::<Seq<char>>::empty());
    assert(seq![t].last() == t);
    assert(configure(Seq::<Seq<char>>::empty()) == Ok::<Seq<Occupancy>, ErrorView>(empty_counts()));
}

/// A configuration string with any token that cannot be read yields an
/// error, never a configuration.
pub proof fn lemma_bad_token_fails(s: Seq<char>, j: int)
    requires
        0 <= j < tokens_of(s).len(),
        token_outcome(tokens_of(s)[j]) is Err,
    ensures
        configuration_outcome(s) is Err,
{
    let tokens = tokens_of(s);
    assert(tokens.take(j + 1).drop_last() =~= tokens.take(j));
    assert(tokens.take(j + 1).last() == tokens[j]);
    let e = configure(tokens.take(j + 1))->Err_0;
    lemma_failure_persists(tokens, j + 1, e);
}

/// Parsing one string twice gives the same configuration.
pub proof fn lemma_parse_idempotent(
    s: Seq<char>,
    first: ElectronConfiguration,
    second: ElectronConfiguration,
)
    requires
        levels_in_order(first@),
        levels_in_order(second@),
        configuration_outcome(s) == Ok::<Seq<Occupancy>, ErrorView>(first.counts()),
        configuration_outcome(s) == Ok::<Seq<Occupancy>, ErrorView>(second.counts()),
    ensures
        first == second,
{
    lemma_counts_determine(first@, second@);
    first.lemma_view_determines(&second);
}

/// A configuration with no electrons has no occupied shells.
pub proof fn lemma_no_shells_when_empty(levels: Seq<EnergyLevel>)
    requires
        levels_in_order(levels),
        counts_of(levels) == empty_counts(),
    ensures
        occupied_levels(levels).len() == 0,
{
    assert(counts_of(levels)[0] == Occupancy::zero());
    lemma_occupied_len(levels, 0);
}

/// Where the first `n` levels hold electrons and the rest hold none, the
/// occupied shells are exactly those `n` levels.
pub proof fn lemma_shells_are_occupied_prefix(levels: Seq<EnergyLevel>, n: nat)
    requires
        levels_in_order(levels),
        n <= 8,
        forall|i: int| 0 <= i < n ==> !(#[trigger] levels[i]).is_vacant(),
        forall|i: int| n <= i < 8 ==> (#[trigger] levels[i]).is_vacant(),
    ensures
        occupied_levels(levels).len() == n,
        occupied_levels(levels) == levels.take(n as int),
{
    lemma_occupied_len(levels, n);
}

} // verus!
