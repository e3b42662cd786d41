//! The binary life-like automaton and its rule-string parser.
//!
//! A rule is a pair of 9-bit masks over neighbor counts 0 through 8: the
//! birth mask says which live-neighbor counts turn a dead cell alive, the
//! survival mask which counts keep a live cell alive.  Rule strings follow
//! the `BxxSyy` notation: a leading `B`, then birth digits, then `S`, then
//! survival digits, every digit between 0 and 8.

use vstd::prelude::*;

verus! {

/// The state of one cell of the binary automaton.
#[derive(Clone, Copy, Debug, PartialEq, Eq, Structural)]
pub enum Life {
    Dead,
    Alive,
}

/// A birth/survival rule: bit `n` of a mask is set when a live-neighbor
/// count of exactly `n` triggers that effect.
#[derive(Clone, Copy, Debug, PartialEq, Eq, Structural)]
pub struct LifeRule {
    pub birth: u16,
    pub survive: u16,
}

/// Why a rule string failed to parse.
#[derive(Clone, Copy, Debug, PartialEq, Eq, Structural)]
pub enum RuleParseReason {
    /// The overall shape is wrong: no leading `B`, or no `S`.
    Format,
    /// A character where a digit 0 through 8 was expected.
    DigitParse,
}

/// A rule-string parse failure: a fixed message and the violated
/// constraint.
#[derive(Clone, Copy, Debug)]
pub struct RuleParseError {
    pub message: &'static str,
    pub reason: RuleParseReason,
}

/// Parameters of the binary automaton: the chance, in percent, that a
/// cell starts out alive, and the birth/survival rule.
#[derive(Clone, Copy, Debug, PartialEq, Eq, Structural)]
pub struct LifeParams {
    pub alive_percent: u8,
    pub rule: LifeRule,
}

/// Whether `c` is a digit between `0` and `8`.
pub open spec fn is_rule_digit(c: char) -> bool {
    48 <= c as u32 <= 56
}

pub open spec fn all_rule_digits(s: Seq<char>) -> bool {
    forall|i: int| 0 <= i < s.len() ==> is_rule_digit(#[trigger] s[i])
}

/// The mask with one bit set per digit of `s` (characters that are not
/// digits 0 through 8 contribute nothing).
pub open spec fn digits_mask(s: Seq<char>) -> u16
    decreases s.len(),
{
    if s.len() == 0 {
        0u16
    } else if is_rule_digit(s.last()) {
        digits_mask(s.drop_last()) | (1u16 << ((s.last() as u32 - 48) as u16))
    } else {
        digits_mask(s.drop_last())
    }
}

/// Whether `c` is a decimal digit (`0` through `9`).
pub open spec fn is_decimal_digit(c: char) -> bool {
    48 <= c as u32 <= 57
}

/// The index of the first character of `s` that is not a rule digit
/// (equal to `s.len()` when all of them are).
pub open spec fn first_non_rule_digit(s: Seq<char>) -> int
    decreases s.len(),
{
    if s.len() == 0 {
        0
    } else if !is_rule_digit(s[0]) {
        0
    } else {
        1 + first_non_rule_digit(s.subrange(1, s.len() as int))
    }
}

/// The first non-digit really is the first: it is in range exactly when
/// one exists, it is no rule digit, and everything before it is.
pub proof fn lemma_first_non_rule_digit(s: Seq<char>)
    ensures
        0 <= first_non_rule_digit(s) <= s.len(),
        all_rule_digits(s) <==> first_non_rule_digit(s) == s.len(),
        first_non_rule_digit(s) < s.len() ==> !is_rule_digit(s[first_non_rule_digit(s)]),
        forall|j: int| 0 <= j < first_non_rule_digit(s) ==> is_rule_digit(#[trigger] s[j]),
    decreases s.len(),
{
    if s.len() == 0 {
    } else if !is_rule_digit(s[0]) {
    } else {
        let tail = s.subrange(1, s.len() as int);
        lemma_first_non_rule_digit(tail);
        assert(forall|i: int| 0 <= i < tail.len() ==> tail[i] == s[i + 1]);
        if all_rule_digits(s) {
            assert forall|j: int| 0 <= j < tail.len() implies is_rule_digit(#[trigger] tail[j]) by {
                assert(tail[j] == s[j + 1]);
            }
        }
        if all_rule_digits(tail) {
            assert forall|j: int| 0 <= j < s.len() implies is_rule_digit(#[trigger] s[j]) by {
                if j >= 1 {
                    assert(s[j] == tail[j - 1]);
                }
            }
        }
        assert forall|j: int| 0 <= j < first_non_rule_digit(s) implies is_rule_digit(
            #[trigger] s[j],
        ) by {
            if j >= 1 {
                assert(tail[j - 1] == s[j]);
            }
        }
    }
}

/// The message a digit-position failure carries, naming the violated
/// constraint: a decimal digit above 8 breaks the digit range, anything
/// else is no digit at all.
pub open spec fn digit_failure_message(c: char) -> Seq<char> {
    if is_decimal_digit(c) {
        "digit can only be 0 through 8"@
    } else {
        "rule can only include digits"@
    }
}

/// Within `s`, a position whose character is no rule digit, with only
/// rule digits before it, is the first non-digit.
proof fn lemma_first_non_rule_digit_at(s: Seq<char>, j: int)
    requires
        0 <= j < s.len(),
        !is_rule_digit(s[j]),
        forall|k: int| 0 <= k < j ==> is_rule_digit(#[trigger] s[k]),
    ensures
        first_non_rule_digit(s) == j,
{
    lemma_first_non_rule_digit(s);
    if first_non_rule_digit(s) < j {
        assert(is_rule_digit(s[first_non_rule_digit(s)]));
    }
}

pub open spec fn has_survival_marker(s: Seq<char>) -> bool {
    exists|i: int| 0 <= i < s.len() && s[i] == 'S'
}

/// The index of the first `S` in `s` (equal to `s.len()` when there is
/// none).
pub open spec fn first_survival_marker(s: Seq<char>) -> int
    decreases s.len(),
{
    if s.len() == 0 {
        0
    } else if s[0] == 'S' {
        0
    } else {
        1 + first_survival_marker(s.subrange(1, s.len() as int))
    }
}

/// A well-formed rule string: a leading `B`, an `S` somewhere after it,
/// and digits 0 through 8 everywhere else.
pub open spec fn rule_str_ok(s: Seq<char>) -> bool {
    &&& s.len() >= 1
    &&& s[0] == 'B'
    &&& has_survival_marker(s)
    &&& all_rule_digits(s.subrange(1, first_survival_marker(s)))
    &&& all_rule_digits(s.subrange(first_survival_marker(s) + 1, s.len() as int))
}

/// The birth mask a well-formed rule string denotes.
pub open spec fn spec_birth_mask(s: Seq<char>) -> u16 {
    digits_mask(s.subrange(1, first_survival_marker(s)))
}

/// The survival mask a well-formed rule string denotes.
pub open spec fn spec_survive_mask(s: Seq<char>) -> u16 {
    digits_mask(s.subrange(first_survival_marker(s) + 1, s.len() as int))
}

/// The first `S` really is the first: it is in range exactly when one
/// exists, it holds `S`, and nothing before it does.
pub proof fn lemma_first_survival_marker(s: Seq<char>)
    ensures
        0 <= first_survival_marker(s) <= s.len(),
        has_survival_marker(s) <==> first_survival_marker(s) < s.len(),
        first_survival_marker(s) < s.len() ==> s[first_survival_marker(s)] == 'S',
        forall|j: int| 0 <= j < first_survival_marker(s) ==> s[j] != 'S',
    decreases s.len(),
{
    if s.len() == 0 {
    } else if s[0] == 'S' {
    } else {
        let tail = s.subrange(1, s.len() as int);
        lemma_first_survival_marker(tail);
        assert(forall|i: int| 0 <= i < tail.len() ==> tail[i] == s[i + 1]);
        if has_survival_marker(s) {
            let i = choose|i: int| 0 <= i < s.len() && s[i] == 'S';
            assert(tail[i - 1] == 'S');
        }
        if has_survival_marker(tail) {
            let i = choose|i: int| 0 <= i < tail.len() && tail[i] == 'S';
            assert(s[i + 1] == 'S');
        }
        assert forall|j: int| 0 <= j < first_survival_marker(s) implies s[j] != 'S' by {
            if j >= 1 {
                assert(tail[j - 1] == s[j]);
            }
        }
    }
}

impl LifeRule {
    /// Folds the characters of `s` between `from` and `to` into a digit
    /// mask; rejects anything that is not a digit 0 through 8, with the
    /// message naming the constraint the first offender violates.
    fn from_digits(s: &str, from: usize, to: usize) -> (r: Result<u16, RuleParseError>)
        requires
            from <= to <= s@.len(),
        ensures
            r is Ok <==> all_rule_digits(s@.subrange(from as int, to as int)),
            r matches Ok(mask) ==> mask == digits_mask(s@.subrange(from as int, to as int)),
            r matches Err(e) ==> ({
                let sub = s@.subrange(from as int, to as int);
                &&& e.reason == RuleParseReason::DigitParse
                &&& first_non_rule_digit(sub) < sub.len()
                &&& e.message@ == digit_failure_message(sub[first_non_rule_digit(sub)])
            }),
    {
        let ghost whole = s@.subrange(from as int, to as int);
        let mut mask: u16 = 0;
        let mut i: usize = from;
        while i < to
            invariant
                from <= i <= to <= s@.len(),
                all_rule_digits(s@.subrange(from as int, i as int)),
                mask == digits_mask(s@.subrange(from as int, i as int)),
                whole == s@.subrange(from as int, to as int),
            decreases to - i,
        {
            let ghost prefix = s@.subrange(from as int, i as int);
            let c = s.get_char(i);
            let code = c as u32;
            if code < 48 || code > 57 {
                proof {
                    assert(whole[i - from] == c);
                    assert forall|k: int| 0 <= k < i - from implies is_rule_digit(
                        #[trigger] whole[k],
                    ) by {
                        assert(whole[k] == s@.subrange(from as int, i as int)[k]);
                    }
                    lemma_first_non_rule_digit_at(whole, i - from);
                }
                return Err(
                    RuleParseError {
                        message: "rule can only include digits",
                        reason: RuleParseReason::DigitParse,
                    },
                );
            }
            if code > 56 {
                proof {
                    assert(whole[i - from] == c);
                    assert forall|k: int| 0 <= k < i - from implies is_rule_digit(
                        #[trigger] whole[k],
                    ) by {
                        assert(whole[k] == s@.subrange(from as int, i as int)[k]);
                    }
                    lemma_first_non_rule_digit_at(whole, i - from);
                }
                return Err(
                    RuleParseError {
                        message: "digit can only be 0 through 8",
                        reason: RuleParseReason::DigitParse,
                    },
                );
            }
            let digit = (code - 48) as u16;
            mask = mask | (1u16 << digit);
            proof {
                let next = s@.subrange(from as int, i + 1);
                assert(next.drop_last() =~= prefix);
                assert(next.last() == c);
            }
            i += 1;
        }
        proof {
            assert(s@.subrange(from as int, i as int) =~= whole);
        }
        Ok(mask)
    }

    /// Parses a `BxxSyy` rule string.  Succeeds exactly on well-formed
    /// strings; a missing leading `B` or missing `S` is a format error,
    /// anything else in the digit positions a digit error, each failure
    /// carrying the message that names the violated constraint.
    pub fn from_str(s: &str) -> (r: Result<LifeRule, RuleParseError>)
        ensures
            r is Ok <==> rule_str_ok(s@),
            r matches Ok(rule) ==> rule.birth == spec_birth_mask(s@) && rule.survive
                == spec_survive_mask(s@),
            r matches Err(e) ==> ({
                let birth_part = s@.subrange(1, first_survival_marker(s@));
                let survive_part = s@.subrange(first_survival_marker(s@) + 1, s@.len() as int);
                if s@.len() == 0 || s@[0] != 'B' {
                    e.reason == RuleParseReason::Format && e.message@
                        == "life rule must start with a birth rule"@
                } else if !has_survival_marker(s@) {
                    e.reason == RuleParseReason::Format && e.message@
                        == "life rule must include a survival rule"@
                } else if !all_rule_digits(birth_part) {
                    e.reason == RuleParseReason::DigitParse && e.message@ == digit_failure_message(
                        birth_part[first_non_rule_digit(birth_part)],
                    )
                } else {
                    &&& !all_rule_digits(survive_part)
                    &&& e.reason == RuleParseReason::DigitParse
                    &&& e.message@ == digit_failure_message(
                        survive_part[first_non_rule_digit(survive_part)],
                    )
                }
            }),
    {
        proof {
            lemma_first_survival_marker(s@);
        }
        let n = s.unicode_len();
        if n == 0 || s.get_char(0) != 'B' {
            return Err(
                RuleParseError {
                    message: "life rule must start with a birth rule",
                    reason: RuleParseReason::Format,
                },
            );
        }
        let mut survive_start: usize = 0;
        let mut found = false;
        let mut i: usize = 0;
        while i < n && !found
            invariant
                0 <= i <= n == s@.len(),
                !found ==> forall|j: int| 0 <= j < i ==> s@[j] != 'S',
                found ==> survive_start < i && s@[survive_start as int] == 'S' && forall|j: int|
                    0 <= j < survive_start ==> s@[j] != 'S',
            decreases n - i + (if found { 0int } else { 1int }),
        {
            if s.get_char(i) == 'S' {
                found = true;
                survive_start = i;
            }
            i += 1;
        }
        if !found {
            return Err(
                RuleParseError {
                    message: "life rule must include a survival rule",
                    reason: RuleParseReason::Format,
                },
            );
        }
        proof {
            assert(first_survival_marker(s@) == survive_start as int) by {
                lemma_first_survival_marker(s@);
                if first_survival_marker(s@) < survive_start as int {
                    assert(s@[first_survival_marker(s@)] == 'S');
                }
            }
        }
        let birth = match Self::from_digits(s, 1, survive_start) {
            Ok(mask) => mask,
            Err(e) => {
                return Err(e);
            },
        };
        let survive = match Self::from_digits(s, survive_start + 1, n) {
            Ok(mask) => mask,
            Err(e) => {
                return Err(e);
            },
        };
        Ok(LifeRule { birth, survive })
    }
}

/// Whether bit `n` of `mask` is set.
pub open spec fn mask_bit(mask: u16, n: int) -> bool {
    n < 16 && (mask >> (n as u16)) & 1 == 1
}

/// The transition of the binary automaton, given the number of live
/// neighbors: a dead cell is born on a birth count, a live cell survives
/// on a survival count, and everything else is dead.
pub open spec fn spec_life_next(state: Life, rule: LifeRule, count: int) -> Life {
    let mask = if state is Alive {
        rule.survive
    } else {
        rule.birth
    };
    if 0 <= count <= 8 && mask_bit(mask, count) {
        Life::Alive
    } else {
        Life::Dead
    }
}

/// Computes the next state of a cell of the binary automaton from its
/// live-neighbor count.
pub fn life_next(state: Life, rule: &LifeRule, count: usize) -> (r: Life)
    ensures
        r == spec_life_next(state, *rule, count as int),
{
    let mask = match state {
        Life::Alive => rule.survive,
        Life::Dead => rule.birth,
    };
    if count <= 8 && (mask >> (count as u16)) & 1 == 1 {
        Life::Alive
    } else {
        Life::Dead
    }
}

/// The default rule `B3S23` as masks.
pub open spec fn spec_b3s23() -> LifeRule {
    LifeRule { birth: 8u16, survive: 12u16 }
}

/// Under the default `B3S23` rule, a cell with exactly 3 live neighbors
/// is alive next generation whatever its prior state; a live cell with 2
/// live neighbors stays alive; every other combination — including a live
/// cell with no live neighbors — is dead next generation.
pub proof fn lemma_b3s23(state: Life, count: int)
    requires
        0 <= count <= 8,
    ensures
        count == 3 ==> spec_life_next(state, spec_b3s23(), count) is Alive,
        state is Alive && count == 2 ==> spec_life_next(state, spec_b3s23(), count) is Alive,
        !(count == 3 || (state is Alive && count == 2)) ==> spec_life_next(
            state,
            spec_b3s23(),
            count,
        ) is Dead,
{
    let m = count as u16;
    assert((8u16 >> m) & 1 == 1 <==> m == 3) by (bit_vector)
        requires
            m <= 8,
    ;
    assert((12u16 >> m) & 1 == 1 <==> (m == 2 || m == 3)) by (bit_vector)
        requires
            m <= 8,
    ;
}

} // verus!
