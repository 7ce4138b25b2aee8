//! Scores: the order of floats by their bit patterns, and the best of a list.

use vstd::arithmetic::power2::{
    lemma_pow2_pos, lemma_pow2_strictly_increases, lemma_pow2_unfold, pow2,
};
use vstd::prelude::*;

verus! {

/// The magnitude part of a float's bit pattern.
pub open spec fn magnitude(bits: i32) -> int {
    if bits >= 0 {
        bits as int
    } else {
        bits - i32::MIN
    }
}

/// The bit pattern is not a number: its magnitude lies above that of infinity.
pub open spec fn is_nan(bits: i32) -> bool {
    magnitude(bits) > 0x7f80_0000
}

/// Where a float that is a number stands among all such floats. The two zeros stand
/// in the same place.
pub open spec fn rank(bits: i32) -> int {
    if bits >= 0 {
        magnitude(bits)
    } else {
        -magnitude(bits)
    }
}

/// The first float is larger than the second. What is not a number is neither larger
/// nor smaller than anything.
pub open spec fn exceeds(first: i32, second: i32) -> bool {
    !is_nan(first) && !is_nan(second) && rank(first) > rank(second)
}

/// The index of the best score: going through the list, a score takes over from the
/// best one so far unless that one exceeds it. `None` for an empty list.
pub open spec fn best(scores: Seq<i32>) -> Option<int>
    decreases scores.len(),
{
    if scores.len() == 0 {
        None
    } else {
        match best(scores.drop_last()) {
            Some(index) if exceeds(scores[index], scores.last()) => Some(index),
            _ => Some(scores.len() - 1),
        }
    }
}

/// The best score's index, or `otherwise` for an empty list.
pub open spec fn best_or(scores: Seq<i32>, otherwise: int) -> int {
    match best(scores) {
        Some(index) => index,
        None => otherwise,
    }
}

/// The scores of the tokens: as many of the leading scores as there are tokens.
pub open spec fn token_scores(scores: Seq<i32>, vocab_size: nat) -> Seq<i32> {
    if vocab_size <= scores.len() {
        scores.take(vocab_size as int)
    } else {
        scores
    }
}

/// The scores of the durations: what follows the scores of the tokens.
pub open spec fn duration_scores(scores: Seq<i32>, vocab_size: nat) -> Seq<i32> {
    if vocab_size <= scores.len() {
        scores.skip(vocab_size as int)
    } else {
        Seq::empty()
    }
}

/// The token that the scores favour; the blank, the last token, if there are no
/// scores.
pub open spec fn favoured_token(scores: Seq<i32>, vocab_size: nat) -> int {
    best_or(token_scores(scores, vocab_size), vocab_size - 1)
}

/// The duration that the scores favour; none if there are no scores for durations.
pub open spec fn favoured_duration(scores: Seq<i32>, vocab_size: nat) -> int {
    best_or(duration_scores(scores, vocab_size), 0)
}

/// Whether the first float is larger than the second.
pub fn is_larger(first: i32, second: i32) -> (larger: bool)
    ensures
        larger == exceeds(first, second),
{
    let infinity: i32 = 0x7f80_0000;
    let first_size: i32 = if first >= 0 {
        first
    } else {
        first - i32::MIN
    };
    let second_size: i32 = if second >= 0 {
        second
    } else {
        second - i32::MIN
    };
    let first_rank: i32 = if first >= 0 {
        first_size
    } else {
        -first_size
    };
    let second_rank: i32 = if second >= 0 {
        second_size
    } else {
        -second_size
    };
    first_size <= infinity && second_size <= infinity && first_rank > second_rank
}

/// The index, counted from `start`, of the best one of the scores from `start` up to
/// `end`.
pub fn argmax(scores: &Vec<i32>, start: usize, end: usize) -> (index: Option<usize>)
    requires
        start <= end <= scores@.len(),
    ensures
        match index {
            Some(index) => best(scores@.subrange(start as int, end as int)) == Some(index as int),
            None => start == end,
        },
        start < end ==> index is Some && index->0 < end - start,
{
    if start == end {
        return None;
    }
    let mut index: usize = 0;
    let mut i: usize = start + 1;
    proof {
        let first = scores@.subrange(start as int, start + 1);
        assert(first.drop_last() =~= Seq::<i32>::empty());
        assert(best(first.drop_last()) is None);
    }
    while i < end
        invariant
            start < i <= end <= scores@.len(),
            index < i - start,
            best(scores@.subrange(start as int, i as int)) == Some(index as int),
        decreases end - i,
    {
        proof {
            let seen = scores@.subrange(start as int, i + 1);
            assert(seen.drop_last() =~= scores@.subrange(start as int, i as int));
            assert(seen[index as int] == scores@[start + index]);
        }
        if !is_larger(scores[start + index], scores[i]) {
            index = i - start;
        }
        i += 1;
    }
    Some(index)
}

/// The token and the duration that the scores favour.
pub fn predict(scores: &Vec<i32>, vocab_size: usize) -> (prediction: (usize, usize))
    requires
        vocab_size > 0,
    ensures
        prediction.0 == favoured_token(scores@, vocab_size as nat),
        prediction.1 == favoured_duration(scores@, vocab_size as nat),
        prediction.0 < vocab_size,
        prediction.1 <= scores@.len(),
{
    let split: usize = if vocab_size <= scores.len() {
        vocab_size
    } else {
        scores.len()
    };
    proof {
        assert(scores@.subrange(0, split as int) =~= token_scores(scores@, vocab_size as nat));
        assert(scores@.subrange(split as int, scores@.len() as int) =~= duration_scores(
            scores@,
            vocab_size as nat,
        ));
    }
    let token_id: usize = match argmax(scores, 0, split) {
        Some(index) => index,
        None => vocab_size - 1,
    };
    let duration_step: usize = match argmax(scores, split, scores.len()) {
        Some(index) => index,
        None => 0,
    };
    (token_id, duration_step)
}

/// Being larger is a strict order on floats: none is larger than itself, and what is
/// larger than a larger one is larger.
pub proof fn law_exceeds_is_strict_order(a: i32, b: i32, c: i32)
    ensures
        !exceeds(a, a),
        exceeds(a, b) ==> !exceeds(b, a),
        exceeds(a, b) && exceeds(b, c) ==> exceeds(a, c),
{
}

/// Two numbers neither of which is larger have the same bits, or are the two zeros.
pub proof fn law_exceeds_is_total(a: i32, b: i32)
    requires
        !is_nan(a),
        !is_nan(b),
        !exceeds(a, b),
        !exceeds(b, a),
    ensures
        a == b || (magnitude(a) == 0 && magnitude(b) == 0),
{
}

/// The best score's index lies in the list, and there is one unless the list is
/// empty.
pub proof fn law_best_is_an_index(scores: Seq<i32>)
    ensures
        best(scores) is None <==> scores.len() == 0,
        best(scores) matches Some(index) ==> 0 <= index < scores.len(),
    decreases scores.len(),
{
    if scores.len() > 0 {
        law_best_is_an_index(scores.drop_last());
    }
}

/// Where every score is a number, no score exceeds the best one, and the best one
/// exceeds every score after it: of equal scores the last one is chosen.
pub proof fn law_best_is_last_maximum(scores: Seq<i32>)
    requires
        scores.len() > 0,
        forall|i: int| 0 <= i < scores.len() ==> !is_nan(#[trigger] scores[i]),
    ensures
        best(scores) is Some,
        0 <= best(scores)->0 < scores.len(),
        forall|i: int|
            0 <= i < scores.len() ==> !exceeds(#[trigger] scores[i], scores[best(scores)->0]),
        forall|i: int|
            best(scores)->0 < i < scores.len() ==> exceeds(
                scores[best(scores)->0],
                #[trigger] scores[i],
            ),
    decreases scores.len(),
{
    let rest = scores.drop_last();
    if rest.len() > 0 {
        assert forall|i: int| 0 <= i < rest.len() implies !is_nan(#[trigger] rest[i]) by {
            assert(rest[i] == scores[i]);
        }
        law_best_is_last_maximum(rest);
        let old_index = best(rest)->0;
        assert(rest[old_index] == scores[old_index]);
        assert forall|i: int| 0 <= i < scores.len() implies !exceeds(
            #[trigger] scores[i],
            scores[best(scores)->0],
        ) by {
            if i < rest.len() {
                assert(rest[i] == scores[i]);
            }
        }
        assert forall|i: int| best(scores)->0 < i < scores.len() implies exceeds(
            scores[best(scores)->0],
            #[trigger] scores[i],
        ) by {
            if i < rest.len() {
                assert(rest[i] == scores[i]);
            }
        }
    }
}

/// A favoured token is one of the vocabulary, and a favoured duration is one that has
/// a score; it is zero where no duration has one.
pub proof fn law_predictions_are_scored(scores: Seq<i32>, vocab_size: nat)
    requires
        vocab_size > 0,
    ensures
        0 <= favoured_token(scores, vocab_size) < vocab_size,
        scores.len() > vocab_size ==> 0 <= favoured_duration(scores, vocab_size) < scores.len()
            - vocab_size,
        scores.len() <= vocab_size ==> favoured_duration(scores, vocab_size) == 0,
{
    law_best_is_an_index(token_scores(scores, vocab_size));
    law_best_is_an_index(duration_scores(scores, vocab_size));
}

/// The exponent of a float's bit pattern: the eight bits after the sign.
pub open spec fn exponent(bits: i32) -> int {
    (if bits >= 0 {
        bits as int
    } else {
        bits + 0x8000_0000
    }) / 0x80_0000
}

/// The fraction of a float's bit pattern: the last 23 bits.
pub open spec fn fraction(bits: i32) -> int {
    (if bits >= 0 {
        bits as int
    } else {
        bits + 0x8000_0000
    }) % 0x80_0000
}

/// The number that a bit pattern stands for, counted in the smallest float above zero.
/// Infinity counts as the number that would come after the largest one.
pub open spec fn value_of(bits: i32) -> int {
    let amount = if exponent(bits) == 0 {
        fraction(bits)
    } else {
        (0x80_0000 + fraction(bits)) * pow2((exponent(bits) - 1) as nat)
    };
    if bits >= 0 {
        amount
    } else {
        -amount
    }
}

/// Among floats without a sign, the larger bit pattern is the larger number.
proof fn lemma_larger_bits_larger_value(a: i32, b: i32)
    requires
        0 <= a < b,
    ensures
        0 <= value_of(a) < value_of(b),
{
    let (e, f) = (exponent(a), fraction(a));
    let (g, h) = (exponent(b), fraction(b));
    assert(0 <= e <= g && 0 <= f < 0x80_0000 && 0 <= h < 0x80_0000);
    vstd::arithmetic::power2::lemma2_to64();
    if e > 0 {
        lemma_pow2_pos((e - 1) as nat);
        lemma_pow2_unfold(e as nat);
        let (low, high) = (pow2((e - 1) as nat) as int, pow2(e as nat) as int);
        assert(0 <= (0x80_0000 + f) * low < 0x80_0000 * high) by (nonlinear_arith)
            requires
                low > 0,
                high == 2 * low,
                0 <= f < 0x80_0000,
        ;
        if e == g {
            assert((0x80_0000 + f) * low < (0x80_0000 + h) * low) by (nonlinear_arith)
                requires
                    low > 0,
                    f < h,
            ;
        }
    }
    if e < g {
        if e < g - 1 {
            lemma_pow2_strictly_increases(e as nat, (g - 1) as nat);
        }
        let (low, high) = (pow2(e as nat) as int, pow2((g - 1) as nat) as int);
        assert(0x80_0000 * low <= (0x80_0000 + h) * high) by (nonlinear_arith)
            requires
                0 < low <= high,
                0 <= h,
        ;
    }
}

/// A float without its sign has the same exponent and fraction, and its value is the
/// other one's negative.
proof fn lemma_sign_turns_value(bits: i32)
    requires
        bits < 0,
    ensures
        value_of(bits) == -value_of((bits + 0x8000_0000) as i32),
{
}

/// A bit pattern is not a number exactly where all bits of the exponent are set and one
/// of the fraction is. Of numbers, the larger one is larger; what is not a number is
/// neither larger nor smaller than anything.
pub proof fn law_larger_means_larger_value(a: i32, b: i32)
    ensures
        is_nan(a) <==> exponent(a) == 255 && fraction(a) != 0,
        !is_nan(a) && !is_nan(b) ==> (exceeds(a, b) <==> value_of(a) > value_of(b)),
        is_nan(a) || is_nan(b) ==> !exceeds(a, b),
{
    let (x, y) = (
        if a >= 0 {
            a
        } else {
            (a + 0x8000_0000) as i32
        },
        if b >= 0 {
            b
        } else {
            (b + 0x8000_0000) as i32
        },
    );
    if a < 0 {
        lemma_sign_turns_value(a);
    }
    if b < 0 {
        lemma_sign_turns_value(b);
    }
    assert(value_of(0) == 0);
    if x > 0 {
        lemma_larger_bits_larger_value(0, x);
    }
    if y > 0 {
        lemma_larger_bits_larger_value(0, y);
    }
    if x < y {
        lemma_larger_bits_larger_value(x, y);
    } else if y < x {
        lemma_larger_bits_larger_value(y, x);
    }
}

/// The best score exceeds all that come after it, and is exceeded by none before it
/// unless something that is not a number stands between them or is itself the best.
proof fn lemma_best_stands_out(scores: Seq<i32>)
    requires
        scores.len() > 0,
    ensures
        best(scores) is Some,
        0 <= best(scores)->0 < scores.len(),
        forall|i: int|
            best(scores)->0 < i < scores.len() ==> exceeds(
                scores[best(scores)->0],
                #[trigger] scores[i],
            ),
        forall|i: int|
            0 <= i < best(scores)->0 && (forall|j: int|
                i < j <= best(scores)->0 ==> !is_nan(#[trigger] scores[j])) ==> !exceeds(
                #[trigger] scores[i],
                scores[best(scores)->0],
            ),
    decreases scores.len(),
{
    let rest = scores.drop_last();
    if rest.len() > 0 {
        lemma_best_stands_out(rest);
        let (b, n) = (best(rest)->0, best(scores)->0);
        assert(rest[b] == scores[b]);
        assert forall|i: int| n < i < scores.len() implies exceeds(
            scores[n],
            #[trigger] scores[i],
        ) by {
            if i < rest.len() {
                assert(rest[i] == scores[i]);
            }
        }
        assert forall|i: int|
            0 <= i < n && (forall|j: int| i < j <= n ==> !is_nan(#[trigger] scores[j])) implies !exceeds(
            #[trigger] scores[i],
            scores[n],
        ) by {
            assert(rest[i] == scores[i]);
            if i < b {
                assert forall|j: int| i < j <= b implies !is_nan(#[trigger] rest[j]) by {
                    assert(rest[j] == scores[j]);
                }
                assert(!is_nan(scores[b]));
            }
        }
    } else {
        assert(best(rest) is None);
    }
}

/// Which score is best, whatever the scores: the one that exceeds all that come after
/// it, and that none before it exceeds, unless something that is not a number stands
/// between the two or is itself the best.
pub proof fn law_best_stands_out(scores: Seq<i32>, index: int)
    requires
        0 <= index < scores.len(),
    ensures
        best(scores) == Some(index) <==> {
            &&& forall|i: int|
                index < i < scores.len() ==> exceeds(scores[index], #[trigger] scores[i])
            &&& forall|i: int|
                0 <= i < index && (forall|j: int|
                    i < j <= index ==> !is_nan(#[trigger] scores[j])) ==> !exceeds(
                    #[trigger] scores[i],
                    scores[index],
                )
        },
{
    lemma_best_stands_out(scores);
    let b = best(scores)->0;
    if b < index {
        assert forall|j: int| b < j <= index implies !is_nan(#[trigger] scores[j]) by {
            assert(exceeds(scores[b], scores[j]));
        }
        assert(exceeds(scores[b], scores[index]));
    } else if index < b {
        if forall|i: int|
            index < i < scores.len() ==> exceeds(scores[index], #[trigger] scores[i]) {
            assert forall|j: int| index < j <= b implies !is_nan(#[trigger] scores[j]) by {
                assert(exceeds(scores[index], scores[j]));
            }
            assert(exceeds(scores[index], scores[b]));
        }
    }
}

/// The favoured token is the best one by the leading scores, as many as there are
/// tokens; without any score it is the last token. No other score counts.
pub proof fn law_token_is_favoured_by_the_leading_scores(
    scores: Seq<i32>,
    vocab_size: nat,
    token: int,
)
    requires
        0 <= token < vocab_size,
    ensures
        scores.len() == 0 ==> favoured_token(scores, vocab_size) == vocab_size - 1,
        token < scores.len() ==> (favoured_token(scores, vocab_size) == token <==> {
            &&& forall|i: int|
                token < i < scores.len() && i < vocab_size ==> exceeds(
                    scores[token],
                    #[trigger] scores[i],
                )
            &&& forall|i: int|
                0 <= i < token && (forall|j: int|
                    i < j <= token ==> !is_nan(#[trigger] scores[j])) ==> !exceeds(
                    #[trigger] scores[i],
                    scores[token],
                )
        }),
{
    let leading = if vocab_size <= scores.len() {
        scores.take(vocab_size as int)
    } else {
        scores
    };
    assert(token_scores(scores, vocab_size) == leading);
    if token < scores.len() {
        assert(forall|i: int| 0 <= i < leading.len() ==> leading[i] == #[trigger] scores[i]);
        assert(forall|i: int| 0 <= i < leading.len() ==> #[trigger] leading[i] == scores[i]);
        law_best_stands_out(leading, token);
        lemma_best_stands_out(leading);
    }
}

/// The favoured duration is the best one by the scores that follow those of the tokens;
/// it is zero where none follow. No other score counts.
pub proof fn law_duration_is_favoured_by_the_scores_that_follow(
    scores: Seq<i32>,
    vocab_size: nat,
    duration: int,
)
    requires
        0 <= duration,
    ensures
        scores.len() <= vocab_size ==> favoured_duration(scores, vocab_size) == 0,
        vocab_size + duration < scores.len() ==> (favoured_duration(scores, vocab_size) == duration
            <==> {
            &&& forall|i: int|
                vocab_size + duration < i < scores.len() ==> exceeds(
                    scores[vocab_size + duration],
                    #[trigger] scores[i],
                )
            &&& forall|i: int|
                vocab_size <= i < vocab_size + duration && (forall|j: int|
                    i < j <= vocab_size + duration ==> !is_nan(#[trigger] scores[j])) ==> !exceeds(
                    #[trigger] scores[i],
                    scores[vocab_size + duration],
                )
        }),
{
    let v = vocab_size as int;
    if v + duration < scores.len() {
        let following = scores.skip(v);
        assert(duration_scores(scores, vocab_size) == following);
        assert(forall|i: int| 0 <= i < following.len() ==> #[trigger] following[i] == scores[v + i]);
        assert(forall|i: int|
            v <= i < scores.len() ==> #[trigger] scores[i] == following[i - v]);
        law_best_stands_out(following, duration);
        lemma_best_stands_out(following);
        let later = forall|i: int|
            v + duration < i < scores.len() ==> exceeds(scores[v + duration], #[trigger] scores[i]);
        let later_here = forall|i: int|
            duration < i < following.len() ==> exceeds(
                following[duration],
                #[trigger] following[i],
            );
        assert(later == later_here);
        if later && best(following) != Some(duration) {
            let i = choose|i: int|
                0 <= i < duration && (forall|j: int|
                    i < j <= duration ==> !is_nan(#[trigger] following[j])) && exceeds(
                    #[trigger] following[i],
                    following[duration],
                );
            assert(exceeds(scores[v + i], scores[v + duration]));
            assert forall|j: int| v + i < j <= v + duration implies !is_nan(
                #[trigger] scores[j],
            ) by {
                assert(!is_nan(following[j - v]));
            }
        }
        if best(following) == Some(duration) {
            assert forall|i: int|
                v <= i < v + duration && (forall|j: int|
                    i < j <= v + duration ==> !is_nan(#[trigger] scores[j])) implies !exceeds(
                #[trigger] scores[i],
                scores[v + duration],
            ) by {
                let k = i - v;
                assert forall|j: int| k < j <= duration implies !is_nan(
                    #[trigger] following[j],
                ) by {
                    assert(!is_nan(scores[v + j]));
                }
                assert(!exceeds(following[k], following[duration]));
            }
        }
    }
}

} // verus!
