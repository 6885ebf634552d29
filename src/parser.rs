use vstd::prelude::*;

use crate::configuration::{ElectronConfiguration, Occupancy, levels_in_order};
use crate::error::{ElementError, ErrorView, TokenFault};
use crate::orbital::{Block, SubOrbital, Suborbital, block_capacity, block_of_letter};

verus! {

/// `c` is one of the ASCII digits `0` to `9`.
pub open spec fn is_decimal_digit(c: char) -> bool {
    '0' <= c && c <= '9'
}

/// The value of the decimal digit `c`.
pub open spec fn digit_value(c: char) -> nat {
    (c as int - '0' as int) as nat
}

/// What `char::is_alphabetic` returns for `c`: whether `c` has the Unicode
/// Alphabetic property.
pub uninterp spec fn unicode_alphabetic(c: char) -> bool;

/// `c` is a letter: an ASCII letter, or a character beyond ASCII with the
/// Unicode Alphabetic property. Within ASCII only the letters have it.
pub open spec fn alphabetic(c: char) -> bool {
    if c <= '\x7F' {
        ('a' <= c && c <= 'z') || ('A' <= c && c <= 'Z')
    } else {
        unicode_alphabetic(c)
    }
}

/// Relies on `char::is_alphabetic`: whether `c` has the Unicode Alphabetic
/// property.
#[verifier::external_body]
fn unicode_is_alphabetic(c: char) -> (r: bool)
    ensures
        r == unicode_alphabetic(c),
{
    c.is_alphabetic()
}

fn is_alphabetic(c: char) -> (r: bool)
    ensures
        r == alphabetic(c),
{
    if c <= '\x7F' {
        ('a' <= c && c <= 'z') || ('A' <= c && c <= 'Z')
    } else {
        unicode_is_alphabetic(c)
    }
}

/// What a left-to-right reading of a token has found: the shell digit (the
/// first digit before any letter), the block letter (the first letter) and
/// the electron count (the digits after the letter, read in base ten).
pub struct TokenParts {
    pub shell: Option<char>,
    pub letter: Option<char>,
    pub count: Option<nat>,
}

/// Reads one more character `c` after the parts `p`.
pub open spec fn read_char(p: TokenParts, c: char) -> TokenParts {
    if is_decimal_digit(c) {
        if p.letter is None {
            if p.shell is None {
                TokenParts { shell: Some(c), ..p }
            } else {
                p
            }
        } else {
            let before = match p.count {
                Some(n) => n,
                None => 0,
            };
            TokenParts { count: Some(10 * before + digit_value(c)), ..p }
        }
    } else if alphabetic(c) && p.letter is None {
        TokenParts { letter: Some(c), ..p }
    } else {
        p
    }
}

/// The parts of token `t`.
pub open spec fn token_parts(t: Seq<char>) -> TokenParts
    decreases t.len(),
{
    if t.len() == 0 {
        TokenParts { shell: None, letter: None, count: None }
    } else {
        read_char(token_parts(t.drop_last()), t.last())
    }
}

/// The suborbital that token `t` names, as (shell, block, electrons), or the
/// error that reading it raises.
pub open spec fn token_outcome(t: Seq<char>) -> Result<(nat, Block, nat), ErrorView> {
    let p = token_parts(t);
    let fault = |reason: TokenFault| ErrorView::MalformedToken { token: t, reason };
    match p.letter {
        None => Err(fault(TokenFault::MissingBlockLetter)),
        Some(l) => match block_of_letter(l) {
            None => Err(ErrorView::InvalidBlockLetter { token: t, letter: l }),
            Some(b) => match p.shell {
                None => Err(fault(TokenFault::MissingShell)),
                Some(d) => if d == '0' || d == '9' {
                    Err(fault(TokenFault::ShellOutOfRange))
                } else {
                    match p.count {
                        None => Err(fault(TokenFault::MissingCount)),
                        Some(k) => if k > block_capacity(b) {
                            Err(
                                ErrorView::CapacityExceeded {
                                    context: t,
                                    limit: block_capacity(b),
                                    actual: if k > usize::MAX {
                                        usize::MAX as nat
                                    } else {
                                        k
                                    },
                                },
                            )
                        } else {
                            Ok((digit_value(d), b, k))
                        },
                    }
                },
            },
        },
    }
}

/// The mathematical content of a token's parse result.
pub open spec fn suborbital_outcome(r: Result<Suborbital, ElementError>) -> Result<
    (nat, Block, nat),
    ErrorView,
> {
    match r {
        Ok(o) => Ok((o.spec_quantum_number() as nat, o.spec_block(), o.spec_electrons() as nat)),
        Err(e) => Err(e@),
    }
}

fn malformed(s: &str, reason: TokenFault) -> (e: ElementError)
    ensures
        e@ == (ErrorView::MalformedToken { token: s@, reason }),
{
    ElementError::MalformedToken { token: s.to_owned(), reason }
}

fn invalid_letter(s: &str, letter: char) -> (e: ElementError)
    ensures
        e@ == (ErrorView::InvalidBlockLetter { token: s@, letter }),
{
    ElementError::InvalidBlockLetter { token: s.to_owned(), letter }
}

fn overfull_token(s: &str, b: Block, count: usize) -> (e: ElementError)
    ensures
        e@ == (ErrorView::CapacityExceeded {
            context: s@,
            limit: block_capacity(b),
            actual: count as nat,
        }),
{
    ElementError::CapacityExceeded {
        context: s.to_owned(),
        limit: b.capacity() as usize,
        actual: count,
    }
}

/// Reads one configuration token such as `2p6`: shell 2, block p, 6 electrons.
pub fn parse_suborbital(s: &str) -> (r: Result<Suborbital, ElementError>)
    ensures
        suborbital_outcome(r) == token_outcome(s@),
{
    let mut shell: Option<char> = None;
    let mut letter: Option<char> = None;
    let mut count: Option<usize> = None;
    let n = s.unicode_len();
    let mut i: usize = 0;
    while i < n
        invariant
            n == s@.len(),
            i <= n,
            shell == token_parts(s@.take(i as int)).shell,
            shell matches Some(d) ==> is_decimal_digit(d),
            letter == token_parts(s@.take(i as int)).letter,
            count is Some <==> token_parts(s@.take(i as int)).count is Some,
            count matches Some(k) ==> ({
                let exact = token_parts(s@.take(i as int)).count->Some_0;
                if exact > usize::MAX {
                    k == usize::MAX
                } else {
                    k == exact
                }
            }),
        decreases n - i,
    {
        let c = s.get_char(i);
        let ghost before = s@.take(i as int);
        assert(s@.take(i + 1).drop_last() =~= before);
        if '0' <= c && c <= '9' {
            if letter.is_none() {
                if shell.is_none() {
                    shell = Some(c);
                }
            } else {
                let before_count: usize = match count {
                    Some(k) => k,
                    None => 0,
                };
                let d = (c as u32 - '0' as u32) as usize;
                let next = if before_count > (usize::MAX - d) / 10 {
                    usize::MAX
                } else {
                    10 * before_count + d
                };
                count = Some(next);
            }
        } else if is_alphabetic(c) && letter.is_none() {
            letter = Some(c);
        }
        i = i + 1;
    }
    assert(s@.take(n as int) =~= s@);
    let l = match letter {
        None => return Err(malformed(s, TokenFault::MissingBlockLetter)),
        Some(l) => l,
    };
    let b = match Block::from_letter(l) {
        None => return Err(invalid_letter(s, l)),
        Some(b) => b,
    };
    let d = match shell {
        None => return Err(malformed(s, TokenFault::MissingShell)),
        Some(d) => d,
    };
    if d == '0' || d == '9' {
        return Err(malformed(s, TokenFault::ShellOutOfRange));
    }
    let k = match count {
        None => return Err(malformed(s, TokenFault::MissingCount)),
        Some(k) => k,
    };
    if k > b.capacity() as usize {
        return Err(overfull_token(s, b, k));
    }
    Suborbital::new((d as u32 - '0' as u32) as u8, b, k as u8)
}

/// Characters that separate the tokens of a configuration: ASCII whitespace.
pub open spec fn is_separator(c: char) -> bool {
    c == ' ' || c == '\t' || c == '\n' || c == '\r' || c == '\x0C'
}

/// After reading `s` from the left: the tokens already closed by a
/// separator, and the token still being read.
pub open spec fn split_state(s: Seq<char>) -> (Seq<Seq<char>>, Seq<char>)
    decreases s.len(),
{
    if s.len() == 0 {
        (Seq::empty(), Seq::empty())
    } else {
        let (done, current) = split_state(s.drop_last());
        if !is_separator(s.last()) {
            (done, current.push(s.last()))
        } else if current.len() > 0 {
            (done.push(current), Seq::empty())
        } else {
            (done, current)
        }
    }
}

/// The non-empty, whitespace-separated tokens of `s`, in order.
pub open spec fn tokens_of(s: Seq<char>) -> Seq<Seq<char>> {
    let (done, current) = split_state(s);
    if current.len() > 0 {
        done.push(current)
    } else {
        done
    }
}

/// Counts of a configuration with no electrons.
pub open spec fn empty_counts() -> Seq<Occupancy> {
    Seq::new(8, |i: int| Occupancy::zero())
}

/// The counts that `tokens` give when each, in order, writes its suborbital
/// into an empty configuration (a later token for the same slot wins), or the
/// error of the first token that cannot be read.
pub open spec fn configure(tokens: Seq<Seq<char>>) -> Result<Seq<Occupancy>, ErrorView>
    decreases tokens.len(),
{
    if tokens.len() == 0 {
        Ok(empty_counts())
    } else {
        match configure(tokens.drop_last()) {
            Err(e) => Err(e),
            Ok(counts) => match token_outcome(tokens.last()) {
                Err(e) => Err(e),
                Ok((n, b, k)) => Ok(counts.update(n - 1, counts[n - 1].with(b, k))),
            },
        }
    }
}

/// The counts that configuration string `s` describes, or the error it raises.
pub open spec fn configuration_outcome(s: Seq<char>) -> Result<Seq<Occupancy>, ErrorView> {
    configure(tokens_of(s))
}

/// Once a prefix of the tokens fails, the whole list fails with that error.
pub proof fn lemma_failure_persists(tokens: Seq<Seq<char>>, m: int, e: ErrorView)
    requires
        0 <= m <= tokens.len(),
        configure(tokens.take(m)) == Err::<Seq<Occupancy>, ErrorView>(e),
    ensures
        configure(tokens) == Err::<Seq<Occupancy>, ErrorView>(e),
    decreases tokens.len() - m,
{
    if m < tokens.len() {
        assert(tokens.take(m + 1).drop_last() =~= tokens.take(m));
        lemma_failure_persists(tokens, m + 1, e);
    } else {
        assert(tokens.take(m) =~= tokens);
    }
}

/// Splits `s` into its tokens.
fn split_tokens(s: &str) -> (r: Vec<&str>)
    ensures
        r@.map_values(|t: &str| t@) == tokens_of(s@),
{
    let n = s.unicode_len();
    let mut r: Vec<&str> = Vec::new();
    let mut start: usize = 0;
    let mut i: usize = 0;
    while i < n
        invariant
            n == s@.len(),
            start <= i <= n,
            split_state(s@.take(i as int)) == (
                r@.map_values(|t: &str| t@),
                s@.subrange(start as int, i as int),
            ),
        decreases n - i,
    {
        let c = s.get_char(i);
        assert(s@.take(i + 1).drop_last() =~= s@.take(i as int));
        if c == ' ' || c == '\t' || c == '\n' || c == '\r' || c == '\x0C' {
            if start < i {
                let token = s.substring_char(start, i);
                r.push(token);
                assert(r@.map_values(|t: &str| t@) =~= split_state(s@.take(i + 1)).0);
            }
            start = i + 1;
            assert(s@.subrange(start as int, i + 1) =~= Seq::<char>::empty());
        } else {
            assert(s@.subrange(start as int, i + 1) =~= s@.subrange(start as int, i as int).push(c));
        }
        i = i + 1;
    }
    assert(s@.take(n as int) =~= s@);
    if start < n {
        let token = s.substring_char(start, n);
        r.push(token);
        assert(r@.map_values(|t: &str| t@) =~= tokens_of(s@));
    }
    r
}

/// Parses a configuration string such as `1s2 2s2 2p6 3s1` into the
/// electron configuration it describes.
pub fn parse_configuration(s: &str) -> (r: Result<ElectronConfiguration, ElementError>)
    ensures
        match r {
            Ok(c) => levels_in_order(c@) && configuration_outcome(s@) == Ok::<
                Seq<Occupancy>,
                ErrorView,
            >(c.counts()),
            Err(e) => configuration_outcome(s@) == Err::<Seq<Occupancy>, ErrorView>(e@),
        },
{
    let tokens = split_tokens(s);
    let ghost toks = tokens@.map_values(|t: &str| t@);
    let mut config = ElectronConfiguration::new_empty();
    assert(config.counts() =~= empty_counts());
    assert(toks.take(0) =~= Seq::<Seq<char>>::empty());
    let mut j: usize = 0;
    while j < tokens.len()
        invariant
            toks == tokens@.map_values(|t: &str| t@),
            toks == tokens_of(s@),
            j <= tokens.len(),
            levels_in_order(config@),
            configure(toks.take(j as int)) == Ok::<Seq<Occupancy>, ErrorView>(config.counts()),
        decreases tokens.len() - j,
    {
        assert(toks.take(j + 1).drop_last() =~= toks.take(j as int));
        assert(toks.take(j + 1).last() == tokens@[j as int]@);
        match parse_suborbital(tokens[j]) {
            Err(e) => {
                proof {
                    lemma_failure_persists(toks, j + 1, e@);
                }
                return Err(e);
            },
            Ok(o) => {
                config.set_electrons(o.quantum_number(), o.block(), o.electrons());
            },
        }
        j = j + 1;
    }
    assert(toks.take(j as int) =~= toks);
    Ok(config)
}

} // verus!
